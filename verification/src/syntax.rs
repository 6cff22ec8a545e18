//! Template syntax translation.
//!
//! User-facing templates write captures as `{name}` and wildcard captures as
//! `{*name}`. The matching engine expects `<name>` and `<*name>`. Translation
//! copies static text verbatim and rewrites only the capture delimiters; the
//! capture's inner text (including any `*` marker) is preserved unchanged.
//!
//! A template is malformed when a `{` is never closed by a `}`, or a `}`
//! appears outside a capture; translation reports this instead of producing
//! output.

use vstd::prelude::*;
use vstd::string::StrSliceExecFns;
use crate::text::chars_to_string;

verus! {

/// The meaning of translation: walk the characters with a flag that says
/// whether we are inside a capture. Outside a capture, `{` opens one (and
/// becomes `<`), a bare `}` is malformed, and anything else is copied.
/// Inside a capture, `}` closes it (and becomes `>`) and anything else is
/// copied. A capture still open at the end is malformed.
pub open spec fn spec_translate(s: Seq<char>, in_capture: bool) -> Option<Seq<char>>
    decreases s.len(),
{
    if s.len() == 0 {
        if in_capture {
            None
        } else {
            Some(Seq::<char>::empty())
        }
    } else {
        let c = s[0];
        let rest = s.skip(1);
        if in_capture {
            if c == '}' {
                match spec_translate(rest, false) {
                    Some(t) => Some(seq!['>'] + t),
                    None => None,
                }
            } else {
                match spec_translate(rest, true) {
                    Some(t) => Some(seq![c] + t),
                    None => None,
                }
            }
        } else {
            if c == '{' {
                match spec_translate(rest, true) {
                    Some(t) => Some(seq!['<'] + t),
                    None => None,
                }
            } else if c == '}' {
                None
            } else {
                match spec_translate(rest, false) {
                    Some(t) => Some(seq![c] + t),
                    None => None,
                }
            }
        }
    }
}

/// A template whose capture delimiters are balanced.
pub open spec fn wf_template(s: Seq<char>) -> bool {
    spec_translate(s, false) is Some
}

/// Translates a template into the matching engine's syntax, or reports that
/// the template is malformed.
pub fn translate_template(path: &str) -> (r: Option<String>)
    ensures
        match r {
            Some(t) => spec_translate(path@, false) == Some(t@),
            None => spec_translate(path@, false) is None,
        },
{
    let n: usize = path.unicode_len();
    let mut out: Vec<char> = Vec::new();
    let mut in_capture: bool = false;
    let mut i: usize = 0;
    proof {
        assert(path@.skip(0) =~= path@);
        match spec_translate(path@, false) {
            Some(t) => {
                assert(out@ + t =~= t);
            },
            None => {},
        }
    }
    while i < n
        invariant
            n == path@.len(),
            i <= n,
            spec_translate(path@, false) == match spec_translate(
                path@.skip(i as int),
                in_capture,
            ) {
                Some(t) => Some(out@ + t),
                None => None::<Seq<char>>,
            },
        decreases n - i,
    {
        let ghost suffix = path@.skip(i as int);
        let ghost out0 = out@;
        let c = path.get_char(i);
        proof {
            assert(suffix[0] == c);
            assert(suffix.skip(1) =~= path@.skip(i + 1));
        }
        let mut d: char = c;
        if in_capture {
            if c == '}' {
                d = '>';
                in_capture = false;
            }
        } else {
            if c == '{' {
                d = '<';
                in_capture = true;
            } else if c == '}' {
                return None;
            }
        }
        out.push(d);
        i = i + 1;
        proof {
            match spec_translate(path@.skip(i as int), in_capture) {
                Some(t) => {
                    assert(out@ + t =~= out0 + (seq![d] + t));
                },
                None => {},
            }
        }
    }
    proof {
        assert(path@.skip(n as int) =~= Seq::<char>::empty());
    }
    if in_capture {
        None
    } else {
        let s = chars_to_string(&out);
        proof {
            assert(out@ + Seq::<char>::empty() =~= out@);
        }
        Some(s)
    }
}

/// Translates a well-formed template into the matching engine's syntax.
pub fn axum_to_wayfind(path: &str) -> (r: String)
    requires
        wf_template(path@),
    ensures
        spec_translate(path@, false) == Some(r@),
{
    translate_template(path).unwrap()
}

/// A sequence of characters with no capture delimiters at all.
pub open spec fn brace_free(s: Seq<char>) -> bool {
    forall|i: int| 0 <= i < s.len() ==> s[i] != '{' && s[i] != '}'
}

/// A template without captures translates to itself.
pub proof fn lemma_translate_static(t: Seq<char>)
    requires
        brace_free(t),
    ensures
        spec_translate(t, false) == Some(t),
    decreases t.len(),
{
    if t.len() == 0 {
        assert(t =~= Seq::<char>::empty());
    } else {
        lemma_translate_static(t.skip(1));
        assert(seq![t[0]] + t.skip(1) =~= t);
    }
}

/// Inside a capture, every character up to the closing delimiter is copied
/// unchanged, and the closing delimiter itself is rewritten.
proof fn lemma_translate_in_capture(name: Seq<char>, post: Seq<char>)
    requires
        forall|i: int| 0 <= i < name.len() ==> name[i] != '}',
        spec_translate(post, false) is Some,
    ensures
        spec_translate(name + seq!['}'] + post, true) == Some(
            name + seq!['>'] + spec_translate(post, false).unwrap(),
        ),
    decreases name.len(),
{
    let whole = name + seq!['}'] + post;
    let tp = spec_translate(post, false).unwrap();
    if name.len() == 0 {
        assert(whole[0] == '}');
        assert(whole.skip(1) =~= post);
        assert(seq!['>'] + tp =~= name + seq!['>'] + tp);
    } else {
        lemma_translate_in_capture(name.skip(1), post);
        assert(whole[0] == name[0]);
        assert(whole[0] != '}');
        assert(whole.skip(1) =~= name.skip(1) + seq!['}'] + post);
        assert(seq![name[0]] + (name.skip(1) + seq!['>'] + tp) =~= name + seq!['>'] + tp);
    }
}

/// Translating a template with a capture `{name}` rewrites only the capture's
/// delimiters: the static prefix, the capture's name, and the translation of
/// whatever follows are all preserved exactly.
pub proof fn lemma_translate_capture(pre: Seq<char>, name: Seq<char>, post: Seq<char>)
    requires
        brace_free(pre),
        brace_free(name),
        spec_translate(post, false) is Some,
    ensures
        spec_translate(pre + seq!['{'] + name + seq!['}'] + post, false) == Some(
            pre + seq!['<'] + name + seq!['>'] + spec_translate(post, false).unwrap(),
        ),
    decreases pre.len(),
{
    let whole = pre + seq!['{'] + name + seq!['}'] + post;
    let tp = spec_translate(post, false).unwrap();
    if pre.len() == 0 {
        lemma_translate_in_capture(name, post);
        assert(whole[0] == '{');
        assert(whole.skip(1) =~= name + seq!['}'] + post);
        assert(seq!['<'] + (name + seq!['>'] + tp) =~= pre + seq!['<'] + name + seq!['>'] + tp);
    } else {
        lemma_translate_capture(pre.skip(1), name, post);
        assert(whole[0] == pre[0]);
        assert(whole.skip(1) =~= pre.skip(1) + seq!['{'] + name + seq!['}'] + post);
        assert(seq![pre[0]] + (pre.skip(1) + seq!['<'] + name + seq!['>'] + tp) =~= pre + seq!['<']
            + name + seq!['>'] + tp);
    }
}

} // verus!
