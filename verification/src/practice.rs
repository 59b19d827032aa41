//! A tree of directories, listed depth first.

use vstd::prelude::*;

verus! {

/// A directory entry with its nesting level, display flags, name and
/// children.
pub struct Dir {
    pub subdir_level: u16,
    pub is_collapsed: bool,
    pub selected: bool,
    pub actual_content: String,
    pub child_contents: Option<Vec<Dir>>,
}

/// The entries of `dirs`, each directory followed by its children, as
/// (level, name) pairs.
pub open spec fn listing(dirs: Seq<Dir>) -> Seq<(u16, Seq<char>)>
    decreases dirs,
{
    if dirs.len() == 0 {
        Seq::empty()
    } else {
        let d = dirs[0];
        let children = match d.child_contents {
            Some(v) => {
                proof {
                    assert(decreases_to!(dirs => dirs[0]));
                }
                listing(v@)
            },
            None => Seq::empty(),
        };
        seq![(d.subdir_level, d.actual_content@)] + children + listing(dirs.drop_first())
    }
}

/// The listing of a sequence is the listings of its parts one after the
/// other.
proof fn lemma_listing_split(dirs: Seq<Dir>, i: int)
    requires
        0 <= i < dirs.len(),
    ensures
        listing(dirs.take(i + 1)) == listing(dirs.take(i)) + listing(seq![dirs[i]]),
    decreases i,
{
    if i == 0 {
        assert(dirs.take(1) =~= seq![dirs[0]]);
        assert(dirs.take(0) =~= Seq::<Dir>::empty());
    } else {
        let t = dirs.take(i + 1);
        assert(t.drop_first() =~= dirs.drop_first().take(i));
        assert(dirs.take(i).drop_first() =~= dirs.drop_first().take(i - 1));
        lemma_listing_split(dirs.drop_first(), i - 1);
        assert(dirs.drop_first()[i - 1] == dirs[i]);
        assert(listing(t) == seq![(dirs[0].subdir_level, dirs[0].actual_content@)] + (match dirs[0].child_contents {
            Some(v) => listing(v@),
            None => Seq::empty(),
        }) + listing(t.drop_first()));
        assert(listing(dirs.take(i)) == seq![(dirs[0].subdir_level, dirs[0].actual_content@)] + (match dirs[0].child_contents {
            Some(v) => listing(v@),
            None => Seq::empty(),
        }) + listing(dirs.take(i).drop_first()));
        assert(listing(t) =~= listing(dirs.take(i)) + listing(seq![dirs[i]]));
    }
}

/// Appends the listing of `dirs` to `out`.
pub fn display(dirs: &Vec<Dir>, out: &mut Vec<(u16, String)>)
    ensures
        final(out)@.map_values(|e: (u16, String)| (e.0, e.1@)) == old(out)@.map_values(
            |e: (u16, String)| (e.0, e.1@),
        ) + listing(dirs@),
    decreases dirs@,
{
    let n = dirs.len();
    let mut i: usize = 0;
    let ghost start = out@.map_values(|e: (u16, String)| (e.0, e.1@));
    assert(dirs@.take(0) =~= Seq::<Dir>::empty());
    assert(start + listing(Seq::<Dir>::empty()) =~= start);
    while i < n
        invariant
            n == dirs@.len(),
            i <= n,
            start == old(out)@.map_values(|e: (u16, String)| (e.0, e.1@)),
            out@.map_values(|e: (u16, String)| (e.0, e.1@)) == start + listing(dirs@.take(i as int)),
        decreases n - i,
    {
        let d = &dirs[i];
        out.push((d.subdir_level, d.actual_content.clone()));
        let ghost after_entry = out@.map_values(|e: (u16, String)| (e.0, e.1@));
        assert(after_entry =~= start + listing(dirs@.take(i as int)) + seq![(d.subdir_level, d.actual_content@)]);
        match &d.child_contents {
            Some(value) => {
                assert(decreases_to!(dirs@ => dirs@[i as int]));
                display(value, out);
            },
            None => {},
        }
        proof {
            lemma_listing_split(dirs@, i as int);
            assert(seq![dirs@[i as int]].drop_first() =~= Seq::<Dir>::empty());
            assert(listing(seq![dirs@[i as int]]) =~= seq![(d.subdir_level, d.actual_content@)] + (match d.child_contents {
                Some(v) => listing(v@),
                None => Seq::empty(),
            }) + listing(Seq::<Dir>::empty()));
        }
        assert(out@.map_values(|e: (u16, String)| (e.0, e.1@)) =~= start + listing(dirs@.take(i + 1)));
        i += 1;
    }
    assert(dirs@.take(n as int) =~= dirs@);
}

} // verus!
