use vstd::prelude::*;

verus! {

/// Unicode `White_Space`, the set that `str::trim` removes.
pub open spec fn is_ws(c: char) -> bool {
    let u = c as u32;
    (0x09 <= u && u <= 0x0D) || u == 0x20 || u == 0x85 || u == 0xA0 || u == 0x1680 || (0x2000 <= u
        && u <= 0x200A) || u == 0x2028 || u == 0x2029 || u == 0x202F || u == 0x205F || u == 0x3000
}

pub open spec fn trim_start(s: Seq<char>) -> Seq<char>
    decreases s.len(),
{
    if s.len() > 0 && is_ws(s[0]) {
        trim_start(s.drop_first())
    } else {
        s
    }
}

pub open spec fn trim_end(s: Seq<char>) -> Seq<char>
    decreases s.len(),
{
    if s.len() > 0 && is_ws(s.last()) {
        trim_end(s.drop_last())
    } else {
        s
    }
}

/// `s` without leading and trailing white space.
pub open spec fn trim(s: Seq<char>) -> Seq<char> {
    trim_end(trim_start(s))
}

pub open spec fn fence() -> Seq<char> {
    seq!['`', '`', '`']
}

pub open spec fn starts_with(s: Seq<char>, p: Seq<char>) -> bool {
    p.len() <= s.len() && s.subrange(0, p.len() as int) == p
}

pub open spec fn ends_with(s: Seq<char>, p: Seq<char>) -> bool {
    p.len() <= s.len() && s.subrange(s.len() - p.len(), s.len() as int) == p
}

/// The first index at or after `from` that holds `c`.
pub open spec fn find_from(s: Seq<char>, c: char, from: int) -> Option<int>
    decreases s.len() - from,
{
    if from < 0 || from >= s.len() {
        None
    } else if s[from] == c {
        Some(from)
    } else {
        find_from(s, c, from + 1)
    }
}

/// The last index before `to` that holds `c`.
pub open spec fn rfind_before(s: Seq<char>, c: char, to: int) -> Option<int>
    decreases to,
{
    if to <= 0 || to > s.len() {
        None
    } else if s[to - 1] == c {
        Some(to - 1)
    } else {
        rfind_before(s, c, to - 1)
    }
}

/// A code fence around the text: everything up to the first line break is
/// dropped with the opening fence, and a closing fence at the end.
pub open spec fn strip_fence(s: Seq<char>) -> Seq<char> {
    if starts_with(s, fence()) {
        let t = match find_from(s, '\n', 0) {
            Some(i) => s.subrange(i + 1, s.len() as int),
            None => s.subrange(3, s.len() as int),
        };
        if ends_with(t, fence()) {
            t.subrange(0, t.len() - 3)
        } else {
            t
        }
    } else {
        s
    }
}

/// Scanning from `i` with `depth` open braces, the index of the brace that
/// brings the depth back to zero.
pub open spec fn close_from(s: Seq<char>, i: int, depth: int) -> Option<int>
    decreases s.len() - i,
{
    if i < 0 || i >= s.len() {
        None
    } else if s[i] == '{' {
        close_from(s, i + 1, depth + 1)
    } else if s[i] == '}' {
        if depth - 1 == 0 {
            Some(i)
        } else {
            close_from(s, i + 1, depth - 1)
        }
    } else {
        close_from(s, i + 1, depth)
    }
}

/// The object that starts at the first `{`, closed by its matching `}`, or
/// else by the last `}` after it; the text unchanged when there is no `{`.
pub open spec fn extract_object(s: Seq<char>) -> Seq<char> {
    match find_from(s, '{', 0) {
        None => s,
        Some(f) => match close_from(s, f, 0) {
            Some(e) => s.subrange(f, e + 1),
            None => match rfind_before(s, '}', s.len() as int) {
                Some(b) => if b > f {
                    s.subrange(f, b + 1)
                } else {
                    s
                },
                None => s,
            },
        },
    }
}

/// Control characters removed: a line break or a tab becomes a space, any
/// other character below U+0020 is dropped.
pub open spec fn strip_controls(s: Seq<char>) -> Seq<char>
    decreases s.len(),
{
    if s.len() == 0 {
        s
    } else {
        let c = s.last();
        strip_controls(s.drop_last()) + if (c as u32) >= 0x20 {
            seq![c]
        } else if c == '\n' || c == '\t' {
            seq![' ']
        } else {
            seq![]
        }
    }
}

pub open spec fn is_closer(c: char) -> bool {
    c == '}' || c == ']'
}

/// The first character at or after `i` that is not white space.
pub open spec fn next_non_ws(s: Seq<char>, i: int) -> Option<char>
    decreases s.len() - i,
{
    if i < 0 || i >= s.len() {
        None
    } else if is_ws(s[i]) {
        next_non_ws(s, i + 1)
    } else {
        Some(s[i])
    }
}

/// A comma that only white space separates from a closing bracket.
pub open spec fn is_trailing_comma(s: Seq<char>, i: int) -> bool {
    &&& s[i] == ','
    &&& match next_non_ws(s, i + 1) {
        Some(c) => is_closer(c),
        None => false,
    }
}

/// The characters of `s` from index `i` on, trailing commas left out.
pub open spec fn keep_from(s: Seq<char>, i: int) -> Seq<char>
    decreases s.len() - i,
{
    if i < 0 || i >= s.len() {
        seq![]
    } else {
        (if is_trailing_comma(s, i) {
            seq![]
        } else {
            seq![s[i]]
        }) + keep_from(s, i + 1)
    }
}

/// Every comma that only white space separates from a closing `}` or `]` removed.
pub open spec fn drop_trailing_commas(s: Seq<char>) -> Seq<char> {
    keep_from(s, 0)
}

/// The JSON candidate recovered from a model's raw text.
pub open spec fn sanitize(s: Seq<char>) -> Seq<char> {
    let a = trim(strip_fence(trim(s)));
    let b = trim(strip_controls(extract_object(a)));
    trim(drop_trailing_commas(b))
}

/// Whether `p` occurs in `s` as a contiguous run.
pub open spec fn contains(s: Seq<char>, p: Seq<char>) -> bool {
    exists|i: int| 0 <= i && i + p.len() <= s.len() && #[trigger] s.subrange(i, i + p.len()) == p
}

/// Already-clean JSON text: nothing to trim at either end, no opening code
/// fence, no control character, and no comma that only white space
/// separates from a closing bracket.
pub open spec fn is_clean_json_text(s: Seq<char>) -> bool {
    &&& s.len() > 0
    &&& !is_ws(s[0])
    &&& !is_ws(s.last())
    &&& !starts_with(s, fence())
    &&& forall|i: int| 0 <= i < s.len() ==> (s[i] as u32) >= 0x20
    &&& forall|i: int| 0 <= i < s.len() ==> !is_trailing_comma(s, i)
}

proof fn lemma_close_is_brace(s: Seq<char>, i: int, depth: int)
    ensures
        match close_from(s, i, depth) {
            Some(e) => i <= e < s.len() && s[e] == '}',
            None => true,
        },
    decreases s.len() - i,
{
    if 0 <= i < s.len() {
        lemma_close_is_brace(s, i + 1, depth + 1);
        lemma_close_is_brace(s, i + 1, depth - 1);
        lemma_close_is_brace(s, i + 1, depth);
    }
}

proof fn lemma_trim_keeps(s: Seq<char>)
    requires
        s.len() > 0,
        !is_ws(s[0]),
        !is_ws(s.last()),
    ensures
        trim(s) == s,
{
}

proof fn lemma_controls_keep(s: Seq<char>)
    requires
        forall|i: int| 0 <= i < s.len() ==> (s[i] as u32) >= 0x20,
    ensures
        strip_controls(s) == s,
    decreases s.len(),
{
    if s.len() > 0 {
        lemma_controls_keep(s.drop_last());
        assert(s.drop_last() + seq![s.last()] =~= s);
    }
}

proof fn lemma_commas_kept(s: Seq<char>, i: int)
    requires
        0 <= i <= s.len(),
        forall|k: int| 0 <= k < s.len() ==> !is_trailing_comma(s, k),
    ensures
        keep_from(s, i) == s.subrange(i, s.len() as int),
    decreases s.len() - i,
{
    if i < s.len() {
        lemma_commas_kept(s, i + 1);
        assert(seq![s[i]] + s.subrange(i + 1, s.len() as int) =~= s.subrange(i, s.len() as int));
    } else {
        assert(s.subrange(i, s.len() as int) =~= Seq::<char>::empty());
    }
}

proof fn lemma_find_in_range(s: Seq<char>, c: char, from: int)
    ensures
        match find_from(s, c, from) {
            Some(i) => from <= i < s.len() && s[i] == c,
            None => true,
        },
    decreases s.len() - from,
{
    if 0 <= from < s.len() && s[from] != c {
        lemma_find_in_range(s, c, from + 1);
    }
}

proof fn lemma_rfind_in_range(s: Seq<char>, c: char, to: int)
    ensures
        match rfind_before(s, c, to) {
            Some(i) => 0 <= i < to && s[i] == c,
            None => true,
        },
    decreases to,
{
    if 0 < to <= s.len() && s[to - 1] != c {
        lemma_rfind_in_range(s, c, to - 1);
    }
}

/// The brace scan over `s[f..n]` agrees with the scan over `s` as long as
/// the latter does not close at or past `n`.
proof fn lemma_close_in_slice(s: Seq<char>, f: int, n: int, i: int, depth: int)
    requires
        0 <= f <= i <= n <= s.len(),
    ensures
        ({
            let t = s.subrange(f, n);
            match close_from(s, i, depth) {
                Some(e) => e < n ==> close_from(t, i - f, depth) == Some(e - f),
                None => close_from(t, i - f, depth) is None,
            }
        }),
    decreases n - i,
{
    lemma_close_is_brace(s, i, depth);
    if i < n {
        lemma_close_in_slice(s, f, n, i + 1, depth + 1);
        lemma_close_in_slice(s, f, n, i + 1, depth - 1);
        lemma_close_in_slice(s, f, n, i + 1, depth);
    }
}

/// Within `s[f..n]`, whose last character is not white space, the next
/// non-space character is the one that `s` has there.
proof fn lemma_next_in_slice(s: Seq<char>, f: int, n: int, i: int)
    requires
        0 <= f <= i < n <= s.len(),
        !is_ws(s[n - 1]),
    ensures
        next_non_ws(s.subrange(f, n), i - f) == next_non_ws(s, i),
    decreases n - i,
{
    if is_ws(s[i]) {
        lemma_next_in_slice(s, f, n, i + 1);
    }
}

/// A slice `s[f..n]` of clean text that starts with `{` and ends with `}` is clean.
proof fn lemma_clean_slice(s: Seq<char>, f: int, n: int)
    requires
        is_clean_json_text(s),
        0 <= f < n <= s.len(),
        n - f >= 1,
        s[f] == '{',
        s[n - 1] == '}',
    ensures
        is_clean_json_text(s.subrange(f, n)),
{
    let t = s.subrange(f, n);
    if t.len() >= 3 {
        assert(t.subrange(0, 3)[0] == '{');
    }
    assert forall|k: int| 0 <= k < t.len() implies !is_trailing_comma(t, k) by {
        if t[k] == ',' {
            lemma_next_in_slice(s, f, n, f + k + 1);
            assert(!is_trailing_comma(s, f + k));
        }
    }
}

/// Clean text goes through the sanitizer as far as the object extraction,
/// and what that keeps is clean again and kept whole by a second extraction.
proof fn lemma_sanitize_is_extract(s: Seq<char>)
    requires
        is_clean_json_text(s),
    ensures
        sanitize(s) == extract_object(s),
        is_clean_json_text(extract_object(s)),
        extract_object(extract_object(s)) == extract_object(s),
{
    lemma_trim_keeps(s);
    assert(strip_fence(s) == s);
    let e = extract_object(s);
    lemma_find_in_range(s, '{', 0);
    match find_from(s, '{', 0) {
        None => {},
        Some(f) => {
            lemma_close_is_brace(s, f, 0);
            match close_from(s, f, 0) {
                Some(c) => {
                    lemma_clean_slice(s, f, c + 1);
                    lemma_close_in_slice(s, f, c + 1, f, 0);
                    assert(e.subrange(0, e.len() as int) =~= e);
                },
                None => {
                    lemma_rfind_in_range(s, '}', s.len() as int);
                    match rfind_before(s, '}', s.len() as int) {
                        Some(b) => if b > f {
                            lemma_clean_slice(s, f, b + 1);
                            lemma_close_in_slice(s, f, b + 1, f, 0);
                            assert(e.subrange(0, e.len() as int) =~= e);
                        },
                        None => {},
                    }
                },
            }
        },
    }
    lemma_controls_keep(e);
    lemma_trim_keeps(e);
    lemma_commas_kept(e, 0);
    assert(e.subrange(0, e.len() as int) =~= e);
}

/// Sanitizing clean JSON text twice gives what sanitizing it once gives.
pub proof fn lemma_sanitize_idempotent_on_clean(s: Seq<char>)
    requires
        is_clean_json_text(s),
    ensures
        sanitize(sanitize(s)) == sanitize(s),
{
    lemma_sanitize_is_extract(s);
    lemma_sanitize_is_extract(extract_object(s));
}

/// Clean text that is one object, its first brace closed by its last
/// character, passes the sanitizer unchanged.
pub proof fn lemma_clean_object_unchanged(s: Seq<char>)
    requires
        is_clean_json_text(s),
        s[0] == '{',
        close_from(s, 0, 0) == Some(s.len() - 1),
    ensures
        sanitize(s) == s,
{
    lemma_sanitize_is_extract(s);
    assert(find_from(s, '{', 0) == Some(0int));
    assert(s.subrange(0, s.len() as int) =~= s);
}

/// The characters of `s`, in order.
pub(crate) fn chars_of(s: &str) -> (r: Vec<char>)
    ensures
        r@ == s@,
{
    let mut r: Vec<char> = Vec::new();
    for c in it: s.chars()
        invariant
            it.seq() == s@,
            r@ == s@.subrange(0, it.index() as int),
    {
        r.push(c);
        assert(r@ =~= s@.subrange(0, it.index() + 1));
    }
    assert(r@ =~= s@);
    r
}

/// Relies on `String: FromIterator<&char>`: the characters of `cs`, in order.
#[verifier::external_body]
pub(crate) fn string_of(cs: &Vec<char>) -> (r: String)
    ensures
        r@ == cs@,
{
    cs.iter().collect()
}

fn is_ws_char(c: char) -> (r: bool)
    ensures
        r == is_ws(c),
{
    let u = c as u32;
    (0x09 <= u && u <= 0x0D) || u == 0x20 || u == 0x85 || u == 0xA0 || u == 0x1680 || (0x2000 <= u
        && u <= 0x200A) || u == 0x2028 || u == 0x2029 || u == 0x202F || u == 0x205F || u == 0x3000
}

fn slice(s: &Vec<char>, from: usize, to: usize) -> (r: Vec<char>)
    requires
        from <= to <= s@.len(),
    ensures
        r@ == s@.subrange(from as int, to as int),
{
    let mut r: Vec<char> = Vec::new();
    let mut i: usize = from;
    while i < to
        invariant
            from <= i <= to <= s@.len(),
            r@ == s@.subrange(from as int, i as int),
        decreases to - i,
    {
        r.push(s[i]);
        assert(r@ =~= s@.subrange(from as int, (i + 1) as int));
        i = i + 1;
    }
    r
}

fn trim_chars(s: &Vec<char>) -> (r: Vec<char>)
    ensures
        r@ == trim(s@),
{
    let mut i: usize = 0;
    assert(s@.subrange(0, s@.len() as int) =~= s@);
    while i < s.len() && is_ws_char(s[i])
        invariant
            i <= s@.len(),
            trim_start(s@) == trim_start(s@.subrange(i as int, s@.len() as int)),
        decreases s.len() - i,
    {
        assert(s@.subrange(i as int, s@.len() as int).drop_first() =~= s@.subrange(
            i + 1,
            s@.len() as int,
        ));
        i = i + 1;
    }
    let ghost t = s@.subrange(i as int, s@.len() as int);
    assert(trim_start(t) == t);
    let mut j: usize = s.len();
    assert(s@.subrange(i as int, j as int) =~= t);
    while j > i && is_ws_char(s[j - 1])
        invariant
            i <= j <= s@.len(),
            trim_end(t) == trim_end(s@.subrange(i as int, j as int)),
        decreases j,
    {
        assert(s@.subrange(i as int, j as int).drop_last() =~= s@.subrange(i as int, j - 1));
        j = j - 1;
    }
    slice(s, i, j)
}

fn find_char(s: &Vec<char>, c: char, from: usize) -> (r: Option<usize>)
    ensures
        match r {
            Some(i) => find_from(s@, c, from as int) == Some(i as int) && from <= i < s@.len()
                && s@[i as int] == c,
            None => find_from(s@, c, from as int) is None,
        },
{
    let mut i: usize = from;
    if i >= s.len() {
        return None;
    }
    while i < s.len()
        invariant
            from <= i <= s@.len(),
            find_from(s@, c, from as int) == find_from(s@, c, i as int),
        decreases s.len() - i,
    {
        if s[i] == c {
            return Some(i);
        }
        i = i + 1;
    }
    None
}

fn rfind_char(s: &Vec<char>, c: char) -> (r: Option<usize>)
    ensures
        match r {
            Some(i) => rfind_before(s@, c, s@.len() as int) == Some(i as int) && i < s@.len(),
            None => rfind_before(s@, c, s@.len() as int) is None,
        },
{
    let mut j: usize = s.len();
    while j > 0
        invariant
            j <= s@.len(),
            rfind_before(s@, c, s@.len() as int) == rfind_before(s@, c, j as int),
        decreases j,
    {
        if s[j - 1] == c {
            return Some(j - 1);
        }
        j = j - 1;
    }
    None
}

fn has_prefix(s: &Vec<char>, p: &Vec<char>) -> (r: bool)
    ensures
        r == starts_with(s@, p@),
{
    if p.len() > s.len() {
        return false;
    }
    let mut i: usize = 0;
    while i < p.len()
        invariant
            p@.len() <= s@.len(),
            i <= p@.len(),
            forall|k: int| 0 <= k < i ==> s@[k] == p@[k],
        decreases p.len() - i,
    {
        if s[i] != p[i] {
            assert(s@.subrange(0, p@.len() as int)[i as int] != p@[i as int]);
            return false;
        }
        i = i + 1;
    }
    assert(s@.subrange(0, p@.len() as int) =~= p@);
    true
}

pub(crate) fn has_suffix(s: &Vec<char>, p: &Vec<char>) -> (r: bool)
    ensures
        r == ends_with(s@, p@),
{
    let len = s.len();
    if p.len() > len {
        return false;
    }
    let off: usize = len - p.len();
    let mut i: usize = 0;
    while i < p.len()
        invariant
            p@.len() <= s@.len(),
            len == s@.len(),
            off == s@.len() - p@.len(),
            i <= p@.len(),
            forall|k: int| 0 <= k < i ==> s@[off + k] == p@[k],
        decreases p.len() - i,
    {
        if s[off + i] != p[i] {
            assert(s@.subrange(off as int, s@.len() as int)[i as int] != p@[i as int]);
            return false;
        }
        i = i + 1;
    }
    assert(s@.subrange(off as int, s@.len() as int) =~= p@);
    true
}

fn strip_fence_chars(s: &Vec<char>) -> (r: Vec<char>)
    ensures
        r@ == strip_fence(s@),
{
    let len = s.len();
    let f = vec!['`', '`', '`'];
    assert(f@ =~= fence());
    if !has_prefix(s, &f) {
        return slice(s, 0, len);
    }
    let t = match find_char(s, '\n', 0) {
        Some(i) => slice(s, i + 1, len),
        None => slice(s, 3, len),
    };
    if has_suffix(&t, &f) {
        slice(&t, 0, t.len() - 3)
    } else {
        t
    }
}

fn close_index(s: &Vec<char>, f: usize) -> (r: Option<usize>)
    requires
        f < s@.len(),
        s@[f as int] == '{',
    ensures
        match r {
            Some(e) => close_from(s@, f as int, 0) == Some(e as int) && f <= e < s@.len(),
            None => close_from(s@, f as int, 0) is None,
        },
{
    let mut depth: usize = 0;
    let mut i: usize = f;
    while i < s.len()
        invariant
            f <= i <= s@.len(),
            s@[f as int] == '{',
            depth <= i - f,
            i > f ==> depth >= 1,
            i == f ==> depth == 0,
            close_from(s@, f as int, 0) == close_from(s@, i as int, depth as int),
        decreases s.len() - i,
    {
        let c = s[i];
        if c == '{' {
            depth = depth + 1;
        } else if c == '}' {
            if depth == 1 {
                return Some(i);
            }
            depth = depth - 1;
        }
        i = i + 1;
    }
    None
}

fn extract_object_chars(s: &Vec<char>) -> (r: Vec<char>)
    ensures
        r@ == extract_object(s@),
{
    let len = s.len();
    match find_char(s, '{', 0) {
        None => slice(s, 0, len),
        Some(f) => {
            match close_index(s, f) {
                Some(e) => slice(s, f, e + 1),
                None => match rfind_char(s, '}') {
                    Some(b) => if b > f {
                        slice(s, f, b + 1)
                    } else {
                        slice(s, 0, len)
                    },
                    None => slice(s, 0, len),
                },
            }
        },
    }
}

fn strip_control_chars(s: &Vec<char>) -> (r: Vec<char>)
    ensures
        r@ == strip_controls(s@),
{
    let mut r: Vec<char> = Vec::new();
    let mut i: usize = 0;
    assert(s@.subrange(0, 0) =~= Seq::<char>::empty());
    while i < s.len()
        invariant
            i <= s@.len(),
            r@ == strip_controls(s@.subrange(0, i as int)),
        decreases s.len() - i,
    {
        let c = s[i];
        let ghost pre = s@.subrange(0, i as int);
        assert(s@.subrange(0, (i + 1) as int).drop_last() =~= pre);
        if (c as u32) >= 0x20 {
            r.push(c);
        } else if c == '\n' || c == '\t' {
            r.push(' ');
        }
        assert(r@ =~= strip_controls(s@.subrange(0, (i + 1) as int)));
        i = i + 1;
    }
    assert(s@.subrange(0, s@.len() as int) =~= s@);
    r
}

fn next_non_ws_char(s: &Vec<char>, i: usize) -> (r: Option<char>)
    requires
        i <= s@.len(),
    ensures
        r == next_non_ws(s@, i as int),
{
    let mut j: usize = i;
    while j < s.len() && is_ws_char(s[j])
        invariant
            i <= j <= s@.len(),
            next_non_ws(s@, i as int) == next_non_ws(s@, j as int),
        decreases s.len() - j,
    {
        j = j + 1;
    }
    if j < s.len() {
        Some(s[j])
    } else {
        None
    }
}

fn drop_trailing_comma_chars(s: &Vec<char>) -> (r: Vec<char>)
    ensures
        r@ == drop_trailing_commas(s@),
{
    let mut r: Vec<char> = Vec::new();
    let mut i: usize = 0;
    while i < s.len()
        invariant
            i <= s@.len(),
            drop_trailing_commas(s@) == r@ + keep_from(s@, i as int),
        decreases s.len() - i,
    {
        let c = s[i];
        let trailing = c == ',' && match next_non_ws_char(s, i + 1) {
            Some(d) => d == '}' || d == ']',
            None => false,
        };
        let ghost r0 = r@;
        if !trailing {
            r.push(c);
        }
        assert(r@ + keep_from(s@, i + 1) =~= r0 + keep_from(s@, i as int));
        i = i + 1;
    }
    assert(r@ + keep_from(s@, i as int) =~= r@);
    r
}

/// Recovers a JSON candidate from a model's raw text: trims it, strips a
/// code fence, keeps the first brace-delimited object, removes control
/// characters and trailing commas. Never fails; the parser reports on the result.
pub fn clean_json_response(response: &str) -> (r: String)
    ensures
        r@ == sanitize(response@),
{
    let raw = chars_of(response);
    let a0 = trim_chars(&raw);
    let a1 = strip_fence_chars(&a0);
    let a = trim_chars(&a1);
    let b0 = extract_object_chars(&a);
    let b1 = strip_control_chars(&b0);
    let b = trim_chars(&b1);
    let c = drop_trailing_comma_chars(&b);
    let out = trim_chars(&c);
    string_of(&out)
}

} // verus!
