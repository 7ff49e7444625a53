//! Splitting text into lines and joining lines into text.
use vstd::prelude::*;

verus! {

/// The lines of `s`, cut at every `'\n'`; the empty text has one empty line.
pub open spec fn split_spec(s: Seq<char>) -> Seq<Seq<char>>
    decreases s.len(),
{
    if s.len() == 0 {
        seq![Seq::<char>::empty()]
    } else {
        let rest = split_spec(s.drop_last());
        if s.last() == '\n' {
            rest.push(Seq::<char>::empty())
        } else {
            rest.update(rest.len() - 1, rest.last().push(s.last()))
        }
    }
}

/// The lines of `ls` joined with `'\n'` between each two.
pub open spec fn join_spec(ls: Seq<Seq<char>>) -> Seq<char>
    decreases ls.len(),
{
    if ls.len() == 0 {
        Seq::<char>::empty()
    } else if ls.len() == 1 {
        ls[0]
    } else {
        join_spec(ls.drop_last()) + seq!['\n'] + ls.last()
    }
}

pub open spec fn has_no_newline(s: Seq<char>) -> bool {
    forall|i: int| 0 <= i < s.len() ==> s[i] != '\n'
}

pub open spec fn strings_view(v: Seq<String>) -> Seq<Seq<char>> {
    v.map_values(|s: String| s@)
}

pub proof fn lemma_view_push(v: Seq<String>, s: String)
    ensures
        strings_view(v.push(s)) == strings_view(v).push(s@),
{
    assert(strings_view(v.push(s)) =~= strings_view(v).push(s@));
}

pub proof fn lemma_view_take(v: Seq<String>, i: int)
    requires
        0 <= i < v.len(),
    ensures
        strings_view(v.take(i + 1)) == strings_view(v.take(i)).push(v[i]@),
{
    assert(strings_view(v.take(i + 1)) =~= strings_view(v.take(i)).push(v[i]@));
}

pub proof fn lemma_split_nonempty(s: Seq<char>)
    ensures
        split_spec(s).len() >= 1,
    decreases s.len(),
{
    if s.len() > 0 {
        lemma_split_nonempty(s.drop_last());
    }
}

/// No line of a split holds a newline.
pub proof fn lemma_split_no_newline(s: Seq<char>)
    ensures
        forall|i: int| 0 <= i < split_spec(s).len() ==> has_no_newline(#[trigger] split_spec(s)[i]),
    decreases s.len(),
{
    if s.len() > 0 {
        let rest = split_spec(s.drop_last());
        lemma_split_no_newline(s.drop_last());
        lemma_split_nonempty(s.drop_last());
        let r = split_spec(s);
        if s.last() == '\n' {
            assert forall|i: int| 0 <= i < r.len() implies has_no_newline(#[trigger] r[i]) by {
                if i < rest.len() {
                    assert(r[i] == rest[i]);
                }
            }
        } else {
            assert forall|i: int| 0 <= i < r.len() implies has_no_newline(#[trigger] r[i]) by {
                if i < rest.len() - 1 {
                    assert(r[i] == rest[i]);
                } else {
                    let l = rest.last();
                    assert(has_no_newline(rest[rest.len() - 1]));
                    assert(r[i] == l.push(s.last()));
                    assert forall|k: int| 0 <= k < r[i].len() implies r[i][k] != '\n' by {
                        if k < l.len() {
                            assert(r[i][k] == l[k]);
                        }
                    }
                }
            }
        }
    }
}

proof fn lemma_split_single(x: Seq<char>)
    requires
        has_no_newline(x),
    ensures
        split_spec(x) == seq![x],
    decreases x.len(),
{
    if x.len() > 0 {
        let y = x.drop_last();
        lemma_split_single(y);
        assert(x.last() != '\n');
        assert(y.push(x.last()) =~= x);
        assert(seq![y].update(0, y.push(x.last())) =~= seq![x]);
    } else {
        assert(x =~= Seq::<char>::empty());
    }
}

proof fn lemma_split_append(a: Seq<char>, x: Seq<char>)
    requires
        has_no_newline(x),
    ensures
        split_spec(a + seq!['\n'] + x) == split_spec(a).push(x),
    decreases x.len(),
{
    let t = a + seq!['\n'] + x;
    if x.len() == 0 {
        assert(t.drop_last() =~= a);
        assert(t.last() == '\n');
        assert(x =~= Seq::<char>::empty());
    } else {
        let y = x.drop_last();
        lemma_split_append(a, y);
        assert(t.drop_last() =~= a + seq!['\n'] + y);
        assert(t.last() == x.last());
        assert(x.last() != '\n');
        let rest = split_spec(a).push(y);
        assert(y.push(x.last()) =~= x);
        assert(rest.update(rest.len() - 1, y.push(x.last())) =~= split_spec(a).push(x));
    }
}

/// Splitting the join of lines that hold no newline gives the lines back.
pub proof fn lemma_split_join(ls: Seq<Seq<char>>)
    requires
        ls.len() >= 1,
        forall|i: int| 0 <= i < ls.len() ==> has_no_newline(#[trigger] ls[i]),
    ensures
        split_spec(join_spec(ls)) == ls,
    decreases ls.len(),
{
    if ls.len() == 1 {
        lemma_split_single(ls[0]);
        assert(seq![ls[0]] =~= ls);
    } else {
        let init = ls.drop_last();
        assert forall|i: int| 0 <= i < init.len() implies has_no_newline(#[trigger] init[i]) by {
            assert(init[i] == ls[i]);
        }
        lemma_split_join(init);
        assert(has_no_newline(ls[ls.len() - 1]));
        lemma_split_append(join_spec(init), ls.last());
        assert(init.push(ls.last()) =~= ls);
    }
}

/// Splits `s` at every newline.
pub fn split_lines(s: &str) -> (r: Vec<String>)
    ensures
        strings_view(r@) == split_spec(s@),
{
    let n = s.unicode_len();
    let mut out: Vec<String> = Vec::new();
    let mut start: usize = 0;
    let mut i: usize = 0;
    proof {
        assert(s@.take(0) =~= Seq::<char>::empty());
        assert(strings_view(out@).push(s@.subrange(0, 0)) =~= seq![Seq::<char>::empty()]);
    }
    while i < n
        invariant
            start <= i <= n,
            n == s@.len(),
            strings_view(out@).push(s@.subrange(start as int, i as int)) == split_spec(
                s@.take(i as int),
            ),
        decreases n - i,
    {
        let c = s.get_char(i);
        let ghost prev = split_spec(s@.take(i as int));
        proof {
            assert(s@.take(i + 1).drop_last() =~= s@.take(i as int));
            assert(s@.take(i + 1).last() == c);
            lemma_split_nonempty(s@.take(i as int));
        }
        if c == '\n' {
            let line = String::from_str(s.substring_char(start, i));
            out.push(line);
            start = i + 1;
            proof {
                assert(strings_view(out@) =~= prev);
                assert(s@.subrange(start as int, i + 1) =~= Seq::<char>::empty());
            }
        } else {
            proof {
                assert(s@.subrange(start as int, i as int).push(c) =~= s@.subrange(
                    start as int,
                    i + 1,
                ));
                assert(strings_view(out@).push(s@.subrange(start as int, i + 1)) =~= prev.update(
                    prev.len() - 1,
                    prev.last().push(c),
                ));
            }
        }
        i = i + 1;
    }
    let last = String::from_str(s.substring_char(start, n));
    out.push(last);
    proof {
        assert(s@.take(n as int) =~= s@);
        assert(strings_view(out@) =~= strings_view(out@.drop_last()).push(last@));
    }
    out
}

/// Joins `ls` with a newline between each two lines.
pub fn join_lines(ls: &Vec<String>) -> (r: String)
    ensures
        r@ == join_spec(strings_view(ls@)),
{
    let mut out = String::new();
    let mut i: usize = 0;
    while i < ls.len()
        invariant
            i <= ls.len(),
            out@ == join_spec(strings_view(ls@.take(i as int))),
        decreases ls.len() - i,
    {
        let ghost before = strings_view(ls@.take(i as int));
        proof {
            assert(strings_view(ls@.take(i + 1)).drop_last() =~= before);
        }
        if i > 0 {
            proof {
                reveal_strlit("\n");
            }
            out.append("\n");
        }
        out.append(ls[i].as_str());
        proof {
            let now = strings_view(ls@.take(i + 1));
            assert(now.last() == ls@[i as int]@);
            if i == 0 {
                assert(out@ =~= now[0]);
            } else {
                assert(out@ =~= join_spec(before) + seq!['\n'] + ls@[i as int]@);
                assert(join_spec(now) == join_spec(now.drop_last()) + seq!['\n'] + now.last());
            }
        }
        i = i + 1;
    }
    proof {
        assert(ls@.take(ls.len() as int) =~= ls@);
    }
    out
}

} // verus!
