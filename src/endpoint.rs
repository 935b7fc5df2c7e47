use vstd::prelude::*;

use crate::sanitize::{chars_of, contains, ends_with, has_suffix, string_of};

verus! {

/// `s` without the `/` characters at its end.
pub open spec fn strip_trailing_slashes(s: Seq<char>) -> Seq<char>
    decreases s.len(),
{
    if s.len() > 0 && s.last() == '/' {
        strip_trailing_slashes(s.drop_last())
    } else {
        s
    }
}

/// A base URL that names an Ollama server: its default port, or its
/// generation path.
pub open spec fn is_ollama_spec(base: Seq<char>) -> bool {
    contains(base, "11434"@) || contains(base, "/api/generate"@)
}

/// The generation URL for an Ollama base URL.
pub open spec fn generate_url_spec(base: Seq<char>) -> Seq<char> {
    if ends_with(base, "/api/generate"@) {
        base
    } else if contains(base, "11434"@) {
        "http://localhost:11434/api/generate"@
    } else {
        strip_trailing_slashes(base) + "/api/generate"@
    }
}

fn occurs(s: &Vec<char>, p: &Vec<char>) -> (r: bool)
    ensures
        r == contains(s@, p@),
{
    let len = s.len();
    if p.len() > len {
        return false;
    }
    let mut i: usize = 0;
    while i <= len - p.len()
        invariant
            len == s@.len(),
            p@.len() <= len,
            i <= len - p@.len() + 1,
            forall|j: int| 0 <= j < i ==> #[trigger] s@.subrange(j, j + p@.len()) != p@,
        decreases len - p.len() + 1 - i,
    {
        let mut k: usize = 0;
        let mut same = true;
        while k < p.len()
            invariant
                len == s@.len(),
                p@.len() <= len,
                i + p@.len() <= len,
                k <= p@.len(),
                same <==> forall|m: int| 0 <= m < k ==> s@[i + m] == p@[m],
            decreases p.len() - k,
        {
            if s[i + k] != p[k] {
                same = false;
            }
            k = k + 1;
        }
        if same {
            assert(s@.subrange(i as int, i + p@.len()) =~= p@);
            return true;
        }
        assert(s@.subrange(i as int, i + p@.len()) != p@) by {
            let m = choose|m: int| 0 <= m < p@.len() && s@[i + m] != p@[m];
            assert(s@.subrange(i as int, i + p@.len())[m] != p@[m]);
        }
        i = i + 1;
    }
    false
}

/// Whether `base_url` names an Ollama server.
pub fn is_ollama_endpoint(base_url: &str) -> (r: bool)
    ensures
        r == is_ollama_spec(base_url@),
{
    let s = chars_of(base_url);
    occurs(&s, &chars_of("11434")) || occurs(&s, &chars_of("/api/generate"))
}

/// The URL that a generation request to the Ollama server at `base_url` goes to.
pub fn generate_url(base_url: &str) -> (r: String)
    ensures
        r@ == generate_url_spec(base_url@),
{
    let s = chars_of(base_url);
    if has_suffix(&s, &chars_of("/api/generate")) {
        return String::from_str(base_url);
    }
    if occurs(&s, &chars_of("11434")) {
        return String::from_str("http://localhost:11434/api/generate");
    }
    let mut j: usize = s.len();
    assert(s@.subrange(0, j as int) =~= s@);
    while j > 0 && s[j - 1] == '/'
        invariant
            j <= s@.len(),
            strip_trailing_slashes(s@) == strip_trailing_slashes(s@.subrange(0, j as int)),
        decreases j,
    {
        assert(s@.subrange(0, j as int).drop_last() =~= s@.subrange(0, j - 1));
        j = j - 1;
    }
    let mut kept: Vec<char> = Vec::new();
    let mut i: usize = 0;
    while i < j
        invariant
            i <= j <= s@.len(),
            kept@ == s@.subrange(0, i as int),
        decreases j - i,
    {
        kept.push(s[i]);
        assert(kept@ =~= s@.subrange(0, i + 1));
        i = i + 1;
    }
    let mut r = string_of(&kept);
    r.append("/api/generate");
    r
}

} // verus!
