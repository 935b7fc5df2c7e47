use shape_runner::endpoint::{generate_url, is_ollama_endpoint};
use shape_runner::orchestrator::{after_transport_error, OrchestratorError, Session, Step};
use shape_runner::shape::FeatureDesignOutput;

#[test]
fn ollama_endpoints_are_recognised() {
    assert!(is_ollama_endpoint("http://localhost:11434"));
    assert!(is_ollama_endpoint("http://gpu-box/api/generate"));
    assert!(!is_ollama_endpoint("http://localhost:8080/llm"));
    assert!(!is_ollama_endpoint(""));
}

#[test]
fn generation_url_choice() {
    assert_eq!(generate_url("http://host:9000/api/generate"), "http://host:9000/api/generate");
    assert_eq!(generate_url("http://127.0.0.1:11434"), "http://localhost:11434/api/generate");
    assert_eq!(generate_url("http://gpu-box:8000//"), "http://gpu-box:8000/api/generate");
    assert_eq!(generate_url("http://gpu-box:8000"), "http://gpu-box:8000/api/generate");
}

#[test]
fn transport_failure_is_never_retried() {
    let step: Step<FeatureDesignOutput> = after_transport_error(Session::new(), "refused".to_string());
    match step {
        Step::Failed(OrchestratorError::Transport { attempts, message }) => {
            assert_eq!(attempts, 1);
            assert_eq!(message, "refused");
        }
        other => panic!("expected a transport failure, got {:?}", other),
    }
}
