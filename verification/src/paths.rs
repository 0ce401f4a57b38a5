use vstd::prelude::*;

verus! {

/// An archive entry's declared path is modelled as the sequence of its
/// components: the byte runs between `/` separators, with empty runs and
/// bare `.` runs dropped.  All path arithmetic (component stripping,
/// sub-path filtering, rejoining) is done on that sequence, never on the
/// raw bytes.

/// A component survives splitting iff it is non-empty and is not `.`.
pub open spec fn keep_component(c: Seq<u8>) -> bool {
    c.len() > 0 && c != seq![46u8]
}

/// The component `..`, which would climb out of the output root.
pub open spec fn parent_component() -> Seq<u8> {
    seq![46u8, 46u8]
}

/// No component of `cs` is `..`.
pub open spec fn safe_components(cs: Seq<Seq<u8>>) -> bool {
    forall|i: int| 0 <= i < cs.len() ==> cs[i] != parent_component()
}

/// `flush(cur)` is the contribution of a finished component run.
pub open spec fn flush(cur: Seq<u8>) -> Seq<Seq<u8>> {
    if keep_component(cur) {
        seq![cur]
    } else {
        Seq::empty()
    }
}

/// Components of `rest`, with `cur` the run read so far.
pub open spec fn split_rec(rest: Seq<u8>, cur: Seq<u8>) -> Seq<Seq<u8>>
    decreases rest.len(),
{
    if rest.len() == 0 {
        flush(cur)
    } else if rest[0] == 47u8 {
        flush(cur) + split_rec(rest.skip(1), Seq::empty())
    } else {
        split_rec(rest.skip(1), cur.push(rest[0]))
    }
}

/// The component sequence of a raw path.
pub open spec fn split_path(s: Seq<u8>) -> Seq<Seq<u8>> {
    split_rec(s, Seq::empty())
}

/// Every component that splitting yields is kept: non-empty and not `.`.
pub proof fn lemma_split_rec_keeps(rest: Seq<u8>, cur: Seq<u8>)
    ensures
        forall|i: int|
            0 <= i < split_rec(rest, cur).len() ==> keep_component(#[trigger] split_rec(rest, cur)[i]),
    decreases rest.len(),
{
    if rest.len() == 0 {
    } else if rest[0] == 47u8 {
        lemma_split_rec_keeps(rest.skip(1), Seq::empty());
        let tail = split_rec(rest.skip(1), Seq::empty());
        assert forall|i: int|
            0 <= i < split_rec(rest, cur).len() implies keep_component(
            #[trigger] split_rec(rest, cur)[i],
        ) by {
            assert(split_rec(rest, cur) == flush(cur) + tail);
            if i < flush(cur).len() {
                assert(split_rec(rest, cur)[i] == cur);
            } else {
                assert(split_rec(rest, cur)[i] == tail[i - flush(cur).len()]);
            }
        }
    } else {
        lemma_split_rec_keeps(rest.skip(1), cur.push(rest[0]));
        let tail = split_rec(rest.skip(1), cur.push(rest[0]));
        assert forall|i: int|
            0 <= i < split_rec(rest, cur).len() implies keep_component(
            #[trigger] split_rec(rest, cur)[i],
        ) by {
            assert(split_rec(rest, cur)[i] == tail[i]);
        }
    }
}

/// Every component of `split_path(s)` is kept.
pub proof fn lemma_split_path_keeps(s: Seq<u8>)
    ensures
        forall|i: int|
            0 <= i < split_path(s).len() ==> keep_component(#[trigger] split_path(s)[i]),
{
    lemma_split_rec_keeps(s, Seq::empty());
}

/// True iff `c` is kept by splitting.
pub fn is_kept(c: &Vec<u8>) -> (r: bool)
    ensures
        r <==> keep_component(c@),
{
    if c.len() == 0 {
        proof {
            assert(c@.len() == 0);
        }
        false
    } else if c.len() == 1 && c[0] == 46u8 {
        proof {
            assert(c@ =~= seq![46u8]);
        }
        false
    } else {
        proof {
            if c@.len() == 1 {
                assert(c@[0] != 46u8);
                assert(c@ != seq![46u8]);
            } else {
                assert(c@.len() != seq![46u8].len());
            }
        }
        true
    }
}

/// Split a raw path into its component sequence.
pub fn split_path_exec(p: &[u8]) -> (r: Vec<Vec<u8>>)
    ensures
        r.deep_view() == split_path(p@),
{
    let ghost whole: Seq<u8> = p@;
    let mut out: Vec<Vec<u8>> = Vec::new();
    let mut cur: Vec<u8> = Vec::new();
    let mut i: usize = 0;
    proof {
        assert(p@.skip(0) =~= p@);
        assert(out.deep_view() + split_rec(p@, Seq::empty()) =~~= split_rec(p@, Seq::empty()));
    }
    while i < p.len()
        invariant
            i <= p.len(),
            whole == p@,
            split_path(whole) == out.deep_view() + split_rec(p@.skip(i as int), cur@),
        decreases p.len() - i,
    {
        let ghost rest = p@.skip(i as int);
        proof {
            assert(rest.len() > 0);
            assert(rest[0] == p@[i as int]);
            assert(rest.skip(1) =~= p@.skip(i as int + 1));
        }
        if p[i] == 47u8 {
            proof {
                assert(split_rec(rest, cur@) == flush(cur@) + split_rec(rest.skip(1), Seq::empty()));
            }
            if is_kept(&cur) {
                let ghost old_out = out.deep_view();
                let ghost cur_snap = cur@;
                out.push(cur);
                proof {
                    assert(out.deep_view() =~~= old_out + flush(cur_snap));
                }
            } else {
                proof {
                    assert(out.deep_view() =~~= out.deep_view() + flush(cur@));
                }
            }
            cur = Vec::new();
        } else {
            let b: u8 = p[i];
            cur.push(b);
        }
        i = i + 1;
    }
    proof {
        assert(p@.skip(i as int) =~= Seq::<u8>::empty());
        assert(split_rec(p@.skip(i as int), cur@) == flush(cur@));
    }
    if is_kept(&cur) {
        let ghost old_out = out.deep_view();
        out.push(cur);
        proof {
            assert(out.deep_view() =~~= split_path(whole));
        }
    } else {
        proof {
            assert(out.deep_view() =~~= split_path(whole));
        }
    }
    out
}

/// True iff the two byte strings are equal.
pub fn bytes_eq(a: &Vec<u8>, b: &Vec<u8>) -> (r: bool)
    ensures
        r <==> a@ == b@,
{
    if a.len() != b.len() {
        return false;
    }
    let mut i: usize = 0;
    while i < a.len()
        invariant
            i <= a.len(),
            a@.len() == b@.len(),
            forall|j: int| 0 <= j < i ==> a@[j] == b@[j],
        decreases a.len() - i,
    {
        if a[i] != b[i] {
            return false;
        }
        i = i + 1;
    }
    proof {
        assert(a@ =~= b@);
    }
    true
}

/// `f` is a component-wise prefix of `p` (equality included).
pub open spec fn is_component_prefix(f: Seq<Seq<u8>>, p: Seq<Seq<u8>>) -> bool {
    f.len() <= p.len() && p.take(f.len() as int) == f
}

/// True iff `f` is a component-wise prefix of `p`.
pub fn starts_with_components(p: &Vec<Vec<u8>>, f: &Vec<Vec<u8>>) -> (r: bool)
    ensures
        r <==> is_component_prefix(f.deep_view(), p.deep_view()),
{
    if f.len() > p.len() {
        return false;
    }
    let mut i: usize = 0;
    while i < f.len()
        invariant
            i <= f.len(),
            f@.len() <= p@.len(),
            forall|j: int| 0 <= j < i ==> p.deep_view()[j] == f.deep_view()[j],
        decreases f.len() - i,
    {
        let eq = bytes_eq(&p[i], &f[i]);
        proof {
            assert(p.deep_view()[i as int] =~= p@[i as int]@);
            assert(f.deep_view()[i as int] =~= f@[i as int]@);
        }
        if !eq {
            proof {
                assert(p.deep_view()[i as int] != f.deep_view()[i as int]);
                assert(!is_component_prefix(f.deep_view(), p.deep_view())) by {
                    if is_component_prefix(f.deep_view(), p.deep_view()) {
                        assert(p.deep_view().take(f.deep_view().len() as int)[i as int]
                            == f.deep_view()[i as int]);
                    }
                }
            }
            return false;
        }
        i = i + 1;
    }
    proof {
        assert(p.deep_view().take(f.deep_view().len() as int) =~= f.deep_view());
    }
    true
}

/// True iff no component of `cs` is `..`.
pub fn components_are_safe(cs: &Vec<Vec<u8>>) -> (r: bool)
    ensures
        r <==> safe_components(cs.deep_view()),
{
    let mut i: usize = 0;
    while i < cs.len()
        invariant
            i <= cs.len(),
            forall|j: int| 0 <= j < i ==> cs.deep_view()[j] != parent_component(),
        decreases cs.len() - i,
    {
        let c = &cs[i];
        proof {
            assert(cs.deep_view()[i as int] =~= cs@[i as int]@);
        }
        if c.len() == 2 && c[0] == 46u8 && c[1] == 46u8 {
            proof {
                assert(cs.deep_view()[i as int] =~= parent_component());
            }
            return false;
        }
        proof {
            if cs.deep_view()[i as int] == parent_component() {
                assert(c@.len() == 2 && c@[0] == 46u8 && c@[1] == 46u8);
            }
        }
        i = i + 1;
    }
    true
}

/// The components joined back into a relative path with `/` separators.
pub open spec fn join_path(cs: Seq<Seq<u8>>) -> Seq<u8>
    decreases cs.len(),
{
    if cs.len() == 0 {
        Seq::empty()
    } else if cs.len() == 1 {
        cs[0]
    } else {
        cs[0] + seq![47u8] + join_path(cs.skip(1))
    }
}

/// Appending one more component appends a separator and the component.
pub proof fn lemma_join_push(cs: Seq<Seq<u8>>, c: Seq<u8>)
    ensures
        cs.len() == 0 ==> join_path(cs.push(c)) == c,
        cs.len() > 0 ==> join_path(cs.push(c)) == join_path(cs) + seq![47u8] + c,
    decreases cs.len(),
{
    if cs.len() == 0 {
        assert(cs.push(c)[0] == c);
    } else if cs.len() == 1 {
        assert(cs.push(c).skip(1) =~= seq![c]);
        assert(cs.push(c)[0] == cs[0]);
        assert(join_path(seq![c]) == c);
        assert(join_path(cs.push(c)) == cs.push(c)[0] + seq![47u8] + join_path(cs.push(c).skip(1)));
    } else {
        lemma_join_push(cs.skip(1), c);
        assert(cs.push(c).skip(1) =~= cs.skip(1).push(c));
        assert(join_path(cs.push(c)) == cs[0] + seq![47u8] + join_path(cs.skip(1).push(c)));
        assert(cs[0] + seq![47u8] + (join_path(cs.skip(1)) + seq![47u8] + c) =~= (cs[0] + seq![47u8]
            + join_path(cs.skip(1))) + seq![47u8] + c);
    }
}

/// Join a component sequence back into a relative path.
pub fn join_path_exec(cs: &Vec<Vec<u8>>) -> (r: Vec<u8>)
    ensures
        r@ == join_path(cs.deep_view()),
{
    let mut out: Vec<u8> = Vec::new();
    let mut i: usize = 0;
    while i < cs.len()
        invariant
            i <= cs.len(),
            out@ == join_path(cs.deep_view().take(i as int)),
        decreases cs.len() - i,
    {
        if i > 0 {
            out.push(47u8);
        }
        let ghost before = cs.deep_view().take(i as int);
        let ghost comp = cs.deep_view()[i as int];
        out.extend_from_slice(cs[i].as_slice());
        proof {
            lemma_join_push(before, comp);
            assert(cs.deep_view().take(i as int + 1) =~~= before.push(comp));
            if i == 0 {
                assert(out@ =~= comp);
            } else {
                assert(out@ =~= join_path(before) + seq![47u8] + comp);
            }
        }
        i = i + 1;
    }
    proof {
        assert(cs.deep_view().take(cs.deep_view().len() as int) =~~= cs.deep_view());
    }
    out
}

} // verus!
