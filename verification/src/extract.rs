//! Recognizing image-generation requests in generated text. A request is a
//! bracketed tag naming a prompt and optionally a file name:
//! `[IMAGE_GEN: prompt="..."]` or `[IMAGE_GEN: prompt="...", name="..."]`.
//! Prompt and name run to the next double quote and must be nonempty; a
//! malformed tag is plain text and is scanned past one character at a time.

use vstd::prelude::*;
use crate::chunking::is_space;
use crate::text::{chars_vec, copy_range, string_from_chars};

verus! {

/// One recognized request: the prompt and the optional file name.
pub struct ImageGenRequest {
    pub prompt: String,
    pub name: Option<String>,
}

/// The abstract value of a recognized request.
pub struct ImageGenRequestV {
    pub prompt: Seq<char>,
    pub name: Option<Seq<char>>,
}

impl View for ImageGenRequest {
    type V = ImageGenRequestV;

    open spec fn view(&self) -> ImageGenRequestV {
        ImageGenRequestV {
            prompt: self.prompt@,
            name: match self.name {
                Some(n) => Some(n@),
                None => None,
            },
        }
    }
}

/// The literal `lit` occurs in `t` at position `i`.
pub open spec fn lit_at(t: Seq<char>, i: int, lit: Seq<char>) -> bool {
    0 <= i && i + lit.len() <= t.len() && t.subrange(i, i + lit.len()) == lit
}

/// The first position at or after `i` that is not whitespace.
pub open spec fn skip_ws(t: Seq<char>, i: int) -> int
    decreases t.len() - i,
{
    if 0 <= i < t.len() && is_space(t[i]) {
        skip_ws(t, i + 1)
    } else {
        i
    }
}

/// The first position at or after `i` holding a double quote, or the end.
pub open spec fn scan_value(t: Seq<char>, i: int) -> int
    decreases t.len() - i,
{
    if 0 <= i < t.len() && t[i] != '"' {
        scan_value(t, i + 1)
    } else {
        i
    }
}

/// A name clause with its closing bracket, starting right after the prompt's
/// closing quote: optional whitespace, a comma, optional whitespace,
/// `name="`, a nonempty run to the next quote, and `]`.
pub open spec fn name_at(t: Seq<char>, q: int) -> Option<(Seq<char>, int)> {
    let c = skip_ws(t, q);
    if !(c < t.len() && t[c] == ',') {
        None
    } else {
        let n0 = skip_ws(t, c + 1);
        if !lit_at(t, n0, "name=\""@) {
            None
        } else {
            let ns = n0 + "name=\""@.len();
            let ne = scan_value(t, ns);
            if ne >= t.len() || ne == ns {
                None
            } else {
                let rb = ne + 1;
                if rb < t.len() && t[rb] == ']' {
                    Some((t.subrange(ns, ne), rb + 1))
                } else {
                    None
                }
            }
        }
    }
}

/// A whole request starting at `i`: the tag opener, optional whitespace,
/// `prompt="`, a nonempty run to the next quote, and then either a name
/// clause ending in `]` or `]` directly. Yields the prompt, the name if one
/// was given, and the position after the closing bracket.
pub open spec fn request_at(t: Seq<char>, i: int) -> Option<
    (Seq<char>, Option<Seq<char>>, int),
> {
    if !lit_at(t, i, "[IMAGE_GEN:"@) {
        None
    } else {
        let p0 = skip_ws(t, i + "[IMAGE_GEN:"@.len());
        if !lit_at(t, p0, "prompt=\""@) {
            None
        } else {
            let ps = p0 + "prompt=\""@.len();
            let pe = scan_value(t, ps);
            if pe >= t.len() || pe == ps {
                None
            } else {
                let q = pe + 1;
                let prompt = t.subrange(ps, pe);
                match name_at(t, q) {
                    Some((nm, end)) => Some((prompt, Some(nm), end)),
                    None => if q < t.len() && t[q] == ']' {
                        Some((prompt, None, q + 1))
                    } else {
                        None
                    },
                }
            }
        }
    }
}

/// The requests found in `t` from position `i` on: the scan jumps past each
/// recognized tag and otherwise advances one character.
pub open spec fn extract_spec(t: Seq<char>, i: int) -> Seq<ImageGenRequestV>
    decreases t.len() - i,
{
    if !(0 <= i < t.len()) {
        Seq::empty()
    } else {
        match request_at(t, i) {
            Some((prompt, name, end)) => if i < end <= t.len() {
                seq![ImageGenRequestV { prompt, name }] + extract_spec(t, end)
            } else {
                Seq::empty()
            },
            None => extract_spec(t, i + 1),
        }
    }
}

/// Advances past whitespace.
fn skip_ws_exec(t: &Vec<char>, i: usize) -> (r: usize)
    requires
        i <= t@.len(),
    ensures
        r == skip_ws(t@, i as int),
        i <= r <= t@.len(),
{
    let n = t.len();
    let mut j = i;
    while j < n && crate::chunking::is_space_exec(t[j])
        invariant
            i <= j <= n == t@.len(),
            skip_ws(t@, i as int) == skip_ws(t@, j as int),
        decreases n - j,
    {
        j = j + 1;
    }
    j
}

/// Advances to the next double quote or the end.
fn scan_value_exec(t: &Vec<char>, i: usize) -> (r: usize)
    requires
        i <= t@.len(),
    ensures
        r == scan_value(t@, i as int),
        i <= r <= t@.len(),
{
    let n = t.len();
    let mut j = i;
    while j < n && t[j] != '"'
        invariant
            i <= j <= n == t@.len(),
            scan_value(t@, i as int) == scan_value(t@, j as int),
        decreases n - j,
    {
        j = j + 1;
    }
    j
}

/// Whether the literal occurs at the position.
fn lit_at_exec(t: &Vec<char>, i: usize, lit: &Vec<char>) -> (r: bool)
    requires
        i <= t@.len(),
    ensures
        r == lit_at(t@, i as int, lit@),
{
    let n = t.len();
    let m = lit.len();
    if m > n - i {
        return false;
    }
    let mut j: usize = 0;
    while j < m
        invariant
            i + m <= n,
            n == t@.len(),
            m == lit@.len(),
            j <= m,
            forall|k: int| 0 <= k < j ==> t@[i + k] == lit@[k],
        decreases m - j,
    {
        if t[i + j] != lit[j] {
            proof {
                assert(t@.subrange(i as int, i + lit@.len())[j as int] != lit@[j as int]);
            }
            return false;
        }
        j = j + 1;
    }
    proof {
        assert(t@.subrange(i as int, i + lit@.len()) =~= lit@);
    }
    true
}

/// Recognizes a request at one position.
fn request_at_exec(t: &Vec<char>, i: usize) -> (r: Option<(String, Option<String>, usize)>)
    requires
        i < t@.len(),
    ensures
        match r {
            Some(found) => {
                &&& request_at(t@, i as int) matches Some(spec_found)
                &&& spec_found.0 == found.0@
                &&& match (spec_found.1, found.1) {
                    (Some(sn), Some(en)) => sn == en@,
                    (None, None) => true,
                    _ => false,
                }
                &&& spec_found.2 == found.2 as int
                &&& i < found.2 <= t@.len()
            },
            None => request_at(t@, i as int) is None,
        },
{
    let n = t.len();
    let opener = chars_vec("[IMAGE_GEN:");
    if !lit_at_exec(t, i, &opener) {
        return None;
    }
    proof {
        assert(i + opener@.len() <= n);
    }
    let p0 = skip_ws_exec(t, i + opener.len());
    let prompt_key = chars_vec("prompt=\"");
    if !lit_at_exec(t, p0, &prompt_key) {
        return None;
    }
    proof {
        assert(p0 + prompt_key@.len() <= n);
    }
    let ps = p0 + prompt_key.len();
    let pe = scan_value_exec(t, ps);
    if pe >= t.len() || pe == ps {
        return None;
    }
    let q = pe + 1;
    let prompt_chars = copy_range(t, ps, pe);
    let prompt = string_from_chars(&prompt_chars);
    match name_at_exec(t, q) {
        Some((name, end)) => Some((prompt, Some(name), end)),
        None => {
            if q < t.len() && t[q] == ']' {
                Some((prompt, None, q + 1))
            } else {
                None
            }
        },
    }
}

/// Recognizes a name clause with its closing bracket.
fn name_at_exec(t: &Vec<char>, q: usize) -> (r: Option<(String, usize)>)
    requires
        q <= t@.len(),
    ensures
        match r {
            Some(found) => {
                &&& name_at(t@, q as int) matches Some(spec_found)
                &&& spec_found.0 == found.0@
                &&& spec_found.1 == found.1 as int
                &&& q < found.1 <= t@.len()
            },
            None => name_at(t@, q as int) is None,
        },
{
    let c = skip_ws_exec(t, q);
    if !(c < t.len() && t[c] == ',') {
        return None;
    }
    let n0 = skip_ws_exec(t, c + 1);
    let name_key = chars_vec("name=\"");
    if !lit_at_exec(t, n0, &name_key) {
        return None;
    }
    let ns = n0 + name_key.len();
    let ne = scan_value_exec(t, ns);
    if ne >= t.len() || ne == ns {
        return None;
    }
    let rb = ne + 1;
    if rb < t.len() && t[rb] == ']' {
        let name_chars = copy_range(t, ns, ne);
        let name = string_from_chars(&name_chars);
        Some((name, rb + 1))
    } else {
        None
    }
}

/// The abstract values of a list of requests.
pub open spec fn request_views(s: Seq<ImageGenRequest>) -> Seq<ImageGenRequestV> {
    s.map_values(|r: ImageGenRequest| r@)
}

/// Scans generated text for image-generation tags and returns each tag's
/// prompt and optional name, in text order. Tags that do not parse are left
/// alone; overlapping candidates are resolved leftmost-first, the scan
/// resuming after each recognized tag.
pub fn extract_image_gen_requests(text: &str) -> (r: Vec<ImageGenRequest>)
    ensures
        request_views(r@) == extract_spec(text@, 0),
{
    let t = chars_vec(text);
    let n = t.len();
    let mut r: Vec<ImageGenRequest> = Vec::new();
    let mut i: usize = 0;
    proof {
        assert(request_views(r@) =~= Seq::<ImageGenRequestV>::empty());
    }
    while i < n
        invariant
            n == t@.len(),
            i <= n,
            t@ == text@,
            extract_spec(text@, 0) == request_views(r@) + extract_spec(text@, i as int),
        decreases n - i,
    {
        match request_at_exec(&t, i) {
            Some((prompt, name, end)) => {
                let entry = ImageGenRequest { prompt, name };
                let ghost r0 = r@;
                let ghost entry_v = entry@;
                proof {
                    assert(extract_spec(text@, i as int) == seq![entry_v] + extract_spec(
                        text@,
                        end as int,
                    ));
                }
                r.push(entry);
                proof {
                    assert(request_views(r@) =~= request_views(r0).push(entry_v));
                    assert(request_views(r0).push(entry_v) + extract_spec(text@, end as int)
                        =~= request_views(r0) + (seq![entry_v] + extract_spec(text@, end as int)));
                }
                i = end;
            },
            None => {
                i = i + 1;
            },
        }
    }
    proof {
        assert(extract_spec(text@, i as int) == Seq::<ImageGenRequestV>::empty());
        assert(request_views(r@) + Seq::<ImageGenRequestV>::empty() =~= request_views(r@));
    }
    r
}

} // verus!
