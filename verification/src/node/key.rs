//! The key of a path: the text of its components, so that two paths that
//! name the same components share one key, as `Utf8Path` compares them.
use vstd::prelude::*;
use super::kind::text_is;

verus! {

/// The text between the separators of a path, in order: one more part
/// than there are `/` characters.
pub open spec fn split_parts(s: Seq<char>) -> Seq<Seq<char>>
    decreases s.len(),
{
    if s.len() == 0 {
        seq![Seq::empty()]
    } else {
        let p = split_parts(s.drop_last());
        if s.last() == '/' {
            p.push(Seq::empty())
        } else {
            p.update(p.len() - 1, p.last().push(s.last()))
        }
    }
}

/// Whether part `i` of a path is one of its components: an empty part is
/// a repeated or trailing separator, and a `.` is the current directory,
/// which counts only as the very first part.
pub open spec fn is_component(part: Seq<char>, i: int) -> bool {
    part.len() > 0 && !(part == seq!['.'] && i > 0)
}

/// The parts that are components, in order.
pub open spec fn kept_parts(parts: Seq<Seq<char>>) -> Seq<Seq<char>>
    decreases parts.len(),
{
    if parts.len() == 0 {
        Seq::empty()
    } else {
        let rest = kept_parts(parts.drop_last());
        if is_component(parts.last(), parts.len() - 1) {
            rest.push(parts.last())
        } else {
            rest
        }
    }
}

/// Parts joined with `/` between them.
pub open spec fn join_parts(parts: Seq<Seq<char>>) -> Seq<char>
    decreases parts.len(),
{
    if parts.len() == 0 {
        Seq::empty()
    } else if parts.len() == 1 {
        parts[0]
    } else {
        join_parts(parts.drop_last()) + seq!['/'] + parts.last()
    }
}

/// The key of a path: `/` for the root where the path is absolute, then
/// its components joined with `/`. Two paths have the same key exactly
/// where `Path::components` gives the same components for them.
pub open spec fn path_key(s: Seq<char>) -> Seq<char> {
    if s.len() > 0 && s[0] == '/' {
        seq!['/'] + join_parts(kept_parts(split_parts(s)))
    } else {
        join_parts(kept_parts(split_parts(s)))
    }
}

/// The parts of a path never run out: there is always a last one.
proof fn lemma_split_nonempty(s: Seq<char>)
    ensures
        split_parts(s).len() >= 1,
    decreases s.len(),
{
    if s.len() > 0 {
        lemma_split_nonempty(s.drop_last());
    }
}

/// Within a run of characters without `/` that starts a part, the last
/// part grows by the run.
proof fn lemma_split_run(s: Seq<char>, start: int, j: int)
    requires
        0 <= start <= j <= s.len(),
        start == 0 || s[start - 1] == '/',
        forall|k: int| start <= k < j ==> s[k] != '/',
    ensures
        split_parts(s.take(j)) == split_parts(s.take(start)).drop_last().push(s.subrange(start, j)),
        split_parts(s.take(start)).last() == Seq::<char>::empty(),
    decreases j,
{
    lemma_split_nonempty(s.take(start));
    if start > 0 {
        assert(s.take(start).drop_last() == s.take(start - 1));
        lemma_split_nonempty(s.take(start - 1));
    }
    if j > start {
        lemma_split_run(s, start, j - 1);
        assert(s.take(j).drop_last() == s.take(j - 1));
        assert(s.subrange(start, j) == s.subrange(start, j - 1).push(s[j - 1]));
        lemma_split_nonempty(s.take(j - 1));
    } else {
        assert(s.subrange(start, j) == Seq::<char>::empty());
        assert(split_parts(s.take(start)) == split_parts(s.take(start)).drop_last().push(
            Seq::<char>::empty(),
        ));
    }
}

/// An empty last part adds no component.
proof fn lemma_kept_push_empty(parts: Seq<Seq<char>>)
    ensures
        kept_parts(parts.push(Seq::empty())) == kept_parts(parts),
{
    assert(parts.push(Seq::empty()).drop_last() == parts);
}

/// Joining one more part puts it after a `/`, or alone.
proof fn lemma_join_push(parts: Seq<Seq<char>>, p: Seq<char>)
    ensures
        join_parts(parts.push(p)) == if parts.len() == 0 {
            p
        } else {
            join_parts(parts) + seq!['/'] + p
        },
{
    assert(parts.push(p).drop_last() == parts);
}

/// The key of a path, as `path_key` says.
pub fn key_of_path(path: &str) -> (r: String)
    ensures
        r@ == path_key(path@),
{
    let ghost s = path@;
    let n = path.unicode_len();
    let mut out = String::new();
    let mut count: usize = 0;
    let mut part_index: usize = 0;
    let mut start: usize = 0;
    let mut i: usize = 0;
    proof {
        assert(s.take(0) == Seq::<char>::empty());
        assert(split_parts(Seq::<char>::empty()) == seq![Seq::<char>::empty()]);
        assert(kept_parts(seq![Seq::<char>::empty()]) == Seq::<Seq<char>>::empty()) by {
            let one = seq![Seq::<char>::empty()];
            assert(one.drop_last() =~= Seq::<Seq<char>>::empty());
            assert(one.last() == Seq::<char>::empty());
            assert(!is_component(one.last(), 0));
            assert(kept_parts(Seq::<Seq<char>>::empty()) == Seq::<Seq<char>>::empty());
        }
    }
    let mut result: Option<String> = None;
    while i <= n
        invariant_except_break
            n == s.len(),
            s == path@,
            start <= i <= n,
            start == 0 || s[start - 1] == '/',
            forall|k: int| start <= k < i ==> s[k] != '/',
            split_parts(s.take(start as int)).len() == part_index + 1,
            out@ == join_parts(kept_parts(split_parts(s.take(start as int)))),
            count == kept_parts(split_parts(s.take(start as int))).len(),
            count <= part_index,
            part_index <= start,
            result is None,
        ensures
            result matches Some(t) && t@ == join_parts(kept_parts(split_parts(s))),
        decreases n + 1 - i,
    {
        let at_end = i == n;
        let is_sep = if at_end {
            false
        } else {
            path.get_char(i) == '/'
        };
        if at_end || is_sep {
            let part = path.substring_char(start, i);
            let ghost c = split_parts(s.take(start as int)).drop_last();
            proof {
                lemma_split_run(s, start as int, i as int);
                lemma_kept_push_empty(c);
                assert(c.push(Seq::<char>::empty()) == split_parts(s.take(start as int)));
                assert(c.push(part@).drop_last() == c);
                assert(c.len() == part_index);
            }
            let keep = i > start && !(text_is(part, ".") && part_index > 0);
            proof {
                reveal_strlit(".");
                assert("."@ =~= seq!['.']);
                assert(keep == is_component(part@, part_index as int));
                lemma_join_push(kept_parts(c), part@);
            }
            if keep {
                if count > 0 {
                    out.append("/");
                    proof {
                        reveal_strlit("/");
                    }
                }
                out.append(part);
                count = count + 1;
            }
            assert(out@ == join_parts(kept_parts(c.push(part@))));
            if at_end {
                assert(s.take(n as int) == s);
                result = Some(out);
                break;
            }
            proof {
                assert(s.take(i + 1).drop_last() == s.take(i as int));
                assert(s.take(i + 1).last() == '/');
                lemma_kept_push_empty(c.push(part@));
                assert(split_parts(s.take(i + 1)) == c.push(part@).push(Seq::<char>::empty()));
            }
            part_index = part_index + 1;
            start = i + 1;
        }
        i = i + 1;
    }
    let joined = match result {
        Some(t) => t,
        None => String::new(),
    };
    if n > 0 && path.get_char(0) == '/' {
        let mut keyed = String::new();
        keyed.append("/");
        keyed.append(joined.as_str());
        proof {
            reveal_strlit("/");
            assert(keyed@ =~= seq!['/'] + joined@);
        }
        keyed
    } else {
        joined
    }
}

} // verus!
