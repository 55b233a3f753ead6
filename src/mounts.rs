//! Mount targets: a target path is read relative to the container root,
//! `.` and empty components are dropped, `..` goes up one level, and a target
//! that would climb above the root is refused.
use vstd::prelude::*;

verus! {

/// Adds the component `cur` to the resolved components `stack`: an empty
/// component or `.` changes nothing, `..` drops the last component and fails
/// when there is none, any other component is appended.
pub open spec fn settle(stack: Seq<Seq<char>>, cur: Seq<char>) -> Option<Seq<Seq<char>>> {
    if cur.len() == 0 || cur == seq!['.'] {
        Some(stack)
    } else if cur == seq!['.', '.'] {
        if stack.len() == 0 {
            None
        } else {
            Some(stack.drop_last())
        }
    } else {
        Some(stack.push(cur))
    }
}

/// The state after reading `s` from the left: the components resolved so far
/// (`None` once the path has climbed above the root), and the component being read.
pub open spec fn walk(s: Seq<char>) -> (Option<Seq<Seq<char>>>, Seq<char>)
    decreases s.len(),
{
    if s.len() == 0 {
        (Some(Seq::empty()), Seq::empty())
    } else {
        let prev = walk(s.drop_last());
        let c = s.last();
        match prev.0 {
            None => (None, Seq::empty()),
            Some(stack) => if c == '/' {
                (settle(stack, prev.1), Seq::empty())
            } else {
                (Some(stack), prev.1.push(c))
            },
        }
    }
}

/// The components of a target path once normalised, or `None` if it escapes the root.
pub open spec fn resolve_target(s: Seq<char>) -> Option<Seq<Seq<char>>> {
    let w = walk(s);
    match w.0 {
        None => None,
        Some(stack) => settle(stack, w.1),
    }
}

/// The path made of `root` followed by each component, each after a `/`.
pub open spec fn join_under(root: Seq<char>, comps: Seq<Seq<char>>) -> Seq<char>
    decreases comps.len(),
{
    if comps.len() == 0 {
        root
    } else {
        join_under(root, comps.drop_last()) + seq!['/'] + comps.last()
    }
}

/// The text of each span of `s`.
pub open spec fn pieces(s: Seq<char>, spans: Seq<(usize, usize)>) -> Seq<Seq<char>> {
    spans.map_values(|p: (usize, usize)| s.subrange(p.0 as int, p.1 as int))
}

pub open spec fn spans_within(spans: Seq<(usize, usize)>, n: int) -> bool {
    forall|k: int| 0 <= k < spans.len() ==> (#[trigger] spans[k]).0 <= spans[k].1 <= n
}

fn settle_span(s: &str, spans: &mut Vec<(usize, usize)>, a: usize, b: usize) -> (ok: bool)
    requires
        a <= b <= s@.len(),
        spans_within(old(spans)@, s@.len() as int),
    ensures
        spans_within(final(spans)@, s@.len() as int),
        ok == settle(pieces(s@, old(spans)@), s@.subrange(a as int, b as int)) is Some,
        ok ==> settle(pieces(s@, old(spans)@), s@.subrange(a as int, b as int)) == Some(
            pieces(s@, final(spans)@),
        ),
{
    let ghost cur = s@.subrange(a as int, b as int);
    let ghost before = pieces(s@, spans@);
    let len = b - a;
    if len == 0 {
        return true;
    }
    let c0 = s.get_char(a);
    if len == 1 && c0 == '.' {
        assert(cur =~= seq!['.']);
        return true;
    }
    if len == 2 && c0 == '.' && s.get_char(a + 1) == '.' {
        assert(cur =~= seq!['.', '.']);
        if spans.len() == 0 {
            return false;
        }
        spans.pop();
        assert(pieces(s@, spans@) =~= before.drop_last());
        return true;
    }
    assert(cur != seq!['.']) by {
        let dot = seq!['.'];
        assert(dot.len() == 1 && dot[0] == '.');
        if len == 1 {
            assert(cur[0] == c0);
        }
    }
    assert(cur != seq!['.', '.']) by {
        let dots = seq!['.', '.'];
        assert(dots.len() == 2 && dots[0] == '.' && dots[1] == '.');
        if len == 2 {
            assert(cur[0] == c0);
            assert(cur[1] == s@[a + 1]);
        }
    }
    spans.push((a, b));
    assert(pieces(s@, spans@) =~= before.push(cur));
    true
}

/// Normalises a target path into spans of `target`, one per component that
/// remains, or `None` if the path climbs above the root.
pub fn resolve_spans(target: &str) -> (r: Option<Vec<(usize, usize)>>)
    ensures
        r is None <==> resolve_target(target@) is None,
        r matches Some(sp) ==> spans_within(sp@, target@.len() as int) && resolve_target(target@)
            == Some(pieces(target@, sp@)),
{
    let n = target.unicode_len();
    let mut spans: Vec<(usize, usize)> = Vec::new();
    let mut escaped = false;
    let mut cur_start: usize = 0;
    let mut i: usize = 0;
    assert(target@.subrange(0, 0) =~= Seq::<char>::empty());
    while i < n
        invariant
            n == target@.len(),
            cur_start <= i <= n,
            spans_within(spans@, n as int),
            escaped <==> walk(target@.subrange(0, i as int)).0 is None,
            !escaped ==> walk(target@.subrange(0, i as int)).0 == Some(pieces(target@, spans@)),
            !escaped ==> walk(target@.subrange(0, i as int)).1 == target@.subrange(
                cur_start as int,
                i as int,
            ),
        decreases n - i,
    {
        let c = target.get_char(i);
        proof {
            assert(target@.subrange(0, i + 1).drop_last() =~= target@.subrange(0, i as int));
            assert(target@.subrange(cur_start as int, i + 1) =~= target@.subrange(
                cur_start as int,
                i as int,
            ).push(c));
        }
        if !escaped {
            if c == '/' {
                let ok = settle_span(target, &mut spans, cur_start, i);
                if !ok {
                    escaped = true;
                }
                cur_start = i + 1;
                assert(target@.subrange(cur_start as int, i + 1) =~= Seq::<char>::empty());
            }
        }
        i = i + 1;
    }
    assert(target@.subrange(0, n as int) =~= target@);
    if escaped {
        return None;
    }
    let ok = settle_span(target, &mut spans, cur_start, n);
    if ok {
        Some(spans)
    } else {
        None
    }
}

/// Returns where a mount target lands under `root`: the root, then each
/// normalised component of `target` after a `/`; `None` if `target` escapes the root.
pub fn container_target(root: &str, target: &str) -> (r: Option<String>)
    ensures
        r is None <==> resolve_target(target@) is None,
        r matches Some(p) ==> p@ == join_under(root@, resolve_target(target@)->0),
{
    match resolve_spans(target) {
        None => None,
        Some(spans) => {
            let ghost comps = pieces(target@, spans@);
            let mut out = String::from_str(root);
            let mut k: usize = 0;
            while k < spans.len()
                invariant
                    k <= spans@.len(),
                    spans_within(spans@, target@.len() as int),
                    comps == pieces(target@, spans@),
                    out@ == join_under(root@, comps.take(k as int)),
                decreases spans@.len() - k,
            {
                let (a, b) = spans[k];
                out.append("/");
                out.append(target.substring_char(a, b));
                proof {
                    reveal_strlit("/");
                    assert(comps.take(k + 1).drop_last() =~= comps.take(k as int));
                    assert(out@ =~= join_under(root@, comps.take(k as int)) + seq!['/'] + comps[k as int]);
                }
                k = k + 1;
            }
            assert(comps.take(spans@.len() as int) =~= comps);
            Some(out)
        }
    }
}

} // verus!
