//! Placeholder substitution for configuration document templates.
//!
//! A template holds placeholders of the form `{{name}}`. Rendering walks the
//! text once, left to right: each placeholder whose name is bound is replaced
//! by its value, and a placeholder with no binding is left verbatim.
//! Rendering is pure; the same template and bindings always give the same
//! text.
use vstd::prelude::*;

use crate::text::substring;
use crate::text::spec_lookup;
use crate::text::str_eq;

verus! {

/// Index of the first `}}` pair in `s`, or -1 when there is none.
pub open spec fn find_close(s: Seq<char>) -> int
    decreases s.len(),
{
    if s.len() < 2 {
        -1
    } else if s[0] == '}' && s[1] == '}' {
        0
    } else {
        if find_close(s.skip(1)) < 0 {
            -1
        } else {
            find_close(s.skip(1)) + 1
        }
    }
}

/// `find_close` returns the least index of a `}}` pair, or -1 when `s` has
/// no such pair.
pub proof fn lemma_find_close(s: Seq<char>)
    ensures
        find_close(s) < 0 ==> forall|k: int|
            0 <= k && k + 1 < s.len() ==> !(#[trigger] s[k] == '}' && s[k + 1] == '}'),
        find_close(s) >= 0 ==> find_close(s) + 1 < s.len() && s[find_close(s)] == '}'
            && s[find_close(s) + 1] == '}' && (forall|k: int|
            0 <= k < find_close(s) ==> !(#[trigger] s[k] == '}' && s[k + 1] == '}')),
    decreases s.len(),
{
    if s.len() >= 2 && !(s[0] == '}' && s[1] == '}') {
        lemma_find_close(s.skip(1));
        assert(forall|k: int| 1 <= k < s.len() ==> s[k] == s.skip(1)[k - 1]);
    }
}

/// The rendering of template `t` under bindings `bs`.
pub open spec fn spec_render(t: Seq<char>, bs: Seq<(Seq<char>, Seq<char>)>) -> Seq<char>
    decreases t.len(),
    via spec_render_decreases
{
    if t.len() < 2 {
        t
    } else if t[0] == '{' && t[1] == '{' && find_close(t.skip(2)) >= 0 {
        let close = find_close(t.skip(2)) + 2;
        let name = t.subrange(2, close);
        match spec_lookup(bs, name) {
            Some(v) => v + spec_render(t.subrange(close + 2, t.len() as int), bs),
            None => t.subrange(0, close + 2) + spec_render(
                t.subrange(close + 2, t.len() as int),
                bs,
            ),
        }
    } else {
        seq![t[0]] + spec_render(t.skip(1), bs)
    }
}

#[via_fn]
proof fn spec_render_decreases(t: Seq<char>, bs: Seq<(Seq<char>, Seq<char>)>) {
    if t.len() >= 2 {
        lemma_find_close(t.skip(2));
    }
}

/// A template with no `}}` pair renders to itself.
proof fn lemma_render_no_close(t: Seq<char>, bs: Seq<(Seq<char>, Seq<char>)>)
    requires
        forall|k: int| 0 <= k && k + 1 < t.len() ==> !(#[trigger] t[k] == '}' && t[k + 1] == '}'),
    ensures
        spec_render(t, bs) == t,
    decreases t.len(),
{
    if t.len() >= 2 {
        lemma_find_close(t.skip(2));
        assert(forall|k: int| 0 <= k < t.skip(2).len() ==> t.skip(2)[k] == t[k + 2]);
        if t[0] == '{' && t[1] == '{' && find_close(t.skip(2)) >= 0 {
            let j = find_close(t.skip(2));
            assert(t[j + 2] == '}' && t[j + 3] == '}');
            assert(false);
        }
        lemma_render_no_close(t.skip(1), bs);
        assert(forall|k: int| 0 <= k < t.skip(1).len() ==> t.skip(1)[k] == t[k + 1]);
        assert(seq![t[0]] + t.skip(1) =~= t);
    } else if t.len() == 1 {
        assert(spec_render(t, bs) == t);
    }
}

/// With no bindings at all, every placeholder is unbound, and the template
/// is reproduced verbatim.
pub proof fn lemma_render_unbound_verbatim(t: Seq<char>)
    ensures
        spec_render(t, Seq::<(Seq<char>, Seq<char>)>::empty()) == t,
    decreases t.len(),
{
    let bs = Seq::<(Seq<char>, Seq<char>)>::empty();
    if t.len() >= 2 && t[0] == '{' && t[1] == '{' && find_close(t.skip(2)) >= 0 {
        let close = find_close(t.skip(2)) + 2;
        lemma_find_close(t.skip(2));
        lemma_render_unbound_verbatim(t.subrange(close + 2, t.len() as int));
        assert(t.subrange(0, close + 2) + t.subrange(close + 2, t.len() as int) =~= t);
    } else if t.len() >= 2 {
        lemma_render_unbound_verbatim(t.skip(1));
        assert(seq![t[0]] + t.skip(1) =~= t);
    }
}

/// Looks the name up among the bindings, first match first.
fn lookup(bindings: &Vec<(String, String)>, name: &str) -> (r: Option<String>)
    ensures
        match r {
            Some(v) => spec_lookup(bindings.deep_view(), name@) == Some(v@),
            None => spec_lookup(bindings.deep_view(), name@) is None,
        },
{
    let ghost dv = bindings.deep_view();
    let mut i: usize = 0;
    proof {
        assert(dv.skip(0) =~= dv);
    }
    while i < bindings.len()
        invariant
            i <= bindings.len(),
            spec_lookup(dv, name@) == spec_lookup(dv.skip(i as int), name@),
        decreases bindings.len() - i,
    {
        proof {
            assert(dv[i as int] == (bindings@[i as int].0@, bindings@[i as int].1@));
            assert(dv.skip(i as int)[0] == dv[i as int]);
        }
        if str_eq(bindings[i].0.as_str(), name) {
            return Some(bindings[i].1.clone());
        }
        proof {
            assert(dv.skip(i as int).skip(1) =~= dv.skip(i + 1));
        }
        i = i + 1;
    }
    proof {
        assert(dv.skip(bindings.len() as int).len() == 0);
    }
    None
}

/// Scans for the first `}}` pair at or after `from`.
fn find_close_from(s: &str, from: usize) -> (r: Option<usize>)
    requires
        from <= s@.len(),
    ensures
        match r {
            Some(j) => from <= j && j + 1 < s@.len() && s@[j as int] == '}' && s@[j + 1] == '}'
                && (forall|k: int|
                from <= k < j ==> !(#[trigger] s@[k] == '}' && s@[k + 1] == '}')),
            None => forall|k: int|
                from <= k && k + 1 < s@.len() ==> !(#[trigger] s@[k] == '}' && s@[k + 1] == '}'),
        },
{
    let len = s.unicode_len();
    if len == 0 {
        return None;
    }
    let mut j: usize = from;
    while j < len - 1
        invariant
            from <= j <= len,
            forall|k: int| from <= k < j ==> !(#[trigger] s@[k] == '}' && s@[k + 1] == '}'),
        decreases len - j,
    {
        if s.get_char(j) == '}' && s.get_char(j + 1) == '}' {
            return Some(j);
        }
        j = j + 1;
    }
    None
}

/// Substitutes each bound `{{name}}` placeholder of `template` with its
/// value; unbound placeholders are left verbatim.
#[verifier::rlimit(50)]
pub fn render(template: &str, bindings: &Vec<(String, String)>) -> (r: String)
    ensures
        r@ == spec_render(template@, bindings.deep_view()),
{
    let ghost bs = bindings.deep_view();
    let len = template.unicode_len();
    let mut out = String::new();
    let mut i: usize = 0;
    proof {
        assert(template@.subrange(0, len as int) =~= template@);
        assert(out@ + spec_render(template@, bs) =~= spec_render(template@, bs));
    }
    while i < len
        invariant
            i <= len,
            out@ + spec_render(template@.subrange(i as int, len as int), bs) == spec_render(
                template@,
                bs,
            ),
        decreases len - i,
    {
        let ghost t = template@.subrange(i as int, len as int);
        let c = template.get_char(i);
        proof {
            assert(t[0] == template@[i as int]);
        }
        if c == '{' && i + 1 < len && template.get_char(i + 1) == '{' {
            proof {
                assert(t[1] == template@[i + 1]);
            }
            match find_close_from(template, i + 2) {
                Some(j) => {
                    proof {
                        lemma_find_close(t.skip(2));
                        assert(forall|k: int|
                            0 <= k < t.skip(2).len() ==> t.skip(2)[k] == template@[i + 2 + k]);
                        assert(t.skip(2)[j - i - 2] == '}' && t.skip(2)[j - i - 1] == '}');
                        assert(forall|k: int|
                            0 <= k < j - i - 2 ==> !(#[trigger] t.skip(2)[k] == '}' && t.skip(2)[k
                                + 1] == '}'));
                        assert(find_close(t.skip(2)) == j - i - 2);
                        assert(t.subrange(2, j - i) =~= template@.subrange(i + 2, j as int));
                        assert(t.subrange(j - i + 2, t.len() as int) =~= template@.subrange(
                            j + 2,
                            len as int,
                        ));
                        assert(t.subrange(0, j - i + 2) =~= template@.subrange(
                            i as int,
                            j + 2,
                        ));
                    }
                    let name = substring(template, i + 2, j);
                    match lookup(bindings, name.as_str()) {
                        Some(v) => {
                            out.append(v.as_str());
                        },
                        None => {
                            let verbatim = substring(template, i, j + 2);
                            out.append(verbatim.as_str());
                        },
                    }
                    proof {
                        assert(out@ + spec_render(template@.subrange(j + 2, len as int), bs)
                            =~= spec_render(template@, bs));
                    }
                    i = j + 2;
                },
                None => {
                    proof {
                        lemma_find_close(t.skip(2));
                        assert(forall|k: int|
                            0 <= k < t.skip(2).len() ==> t.skip(2)[k] == template@[i + 2 + k]);
                        assert(forall|k: int|
                            0 <= k && k + 1 < t.len() ==> !(#[trigger] t[k] == '}' && t[k + 1]
                                == '}')) by {
                            assert(forall|k: int| 0 <= k < t.len() ==> t[k] == template@[i + k]);
                        }
                        lemma_render_no_close(t, bs);
                    }
                    let rest = substring(template, i, len);
                    out.append(rest.as_str());
                    proof {
                        assert(template@.subrange(len as int, len as int) =~= Seq::<
                            char,
                        >::empty());
                        assert(out@ + Seq::<char>::empty() =~= out@);
                    }
                    i = len;
                },
            }
        } else {
            let one = substring(template, i, i + 1);
            out.append(one.as_str());
            proof {
                if t.len() >= 2 {
                    assert(t[1] == template@[i + 1]);
                    assert(!(t[0] == '{' && t[1] == '{') || find_close(t.skip(2)) < 0);
                    if t[0] == '{' && t[1] == '{' {
                        assert(i + 1 < len && template@[i + 1] == '{');
                        assert(false);
                    }
                    assert(spec_render(t, bs) == seq![t[0]] + spec_render(t.skip(1), bs));
                    assert(t.skip(1) =~= template@.subrange(i + 1, len as int));
                    assert(template@.subrange(i as int, i + 1) =~= seq![t[0]]);
                } else {
                    assert(t.len() == 1);
                    assert(spec_render(t, bs) == t);
                    assert(template@.subrange(i as int, i + 1) =~= t);
                    assert(template@.subrange(i + 1, len as int) =~= Seq::<char>::empty());
                    assert(spec_render(template@.subrange(i + 1, len as int), bs)
                        == Seq::<char>::empty());
                }
                assert(out@ + spec_render(template@.subrange(i + 1, len as int), bs)
                    =~= spec_render(template@, bs));
            }
            i = i + 1;
        }
    }
    proof {
        assert(template@.subrange(len as int, len as int) =~= Seq::<char>::empty());
        assert(out@ + Seq::<char>::empty() =~= out@);
    }
    out
}

} // verus!
