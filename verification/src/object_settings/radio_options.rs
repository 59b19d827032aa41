//! Radio-button groups: a list of named options of which one is chosen.

use vstd::prelude::*;

verus! {

/// One option of a radio group.
pub struct Fields {
    pub name: String,
    pub status: bool,
}

/// Whether position `i` of a list is the one chosen by `choice_true`:
/// positions are compared after truncation to a byte.
pub open spec fn picks(i: int, choice_true: u8) -> bool {
    i % 256 == choice_true as int
}

/// The list after choosing `choice_true`: names stay, exactly the positions
/// that `picks` are switched on.
pub open spec fn chosen(s: Seq<Fields>, choice_true: u8) -> Seq<Fields> {
    Seq::new(s.len(), |i: int| Fields { name: s[i].name, status: picks(i, choice_true) })
}

/// Position of the last option that is switched on, or -1 when none is.
pub open spec fn enabled_position(s: Seq<Fields>) -> int
    decreases s.len(),
{
    if s.len() == 0 {
        -1
    } else if s.last().status {
        s.len() - 1
    } else {
        enabled_position(s.drop_last())
    }
}

/// The index reported for a list: the last enabled position truncated to a
/// byte, or 0 when nothing is enabled.
pub open spec fn enabled_index_of(s: Seq<Fields>) -> u8 {
    let p = enabled_position(s);
    if p < 0 {
        0
    } else {
        (p % 256) as u8
    }
}

/// Switches on the options whose position equals `choice_true` (as a byte)
/// and switches off all others.
pub fn change_choice(list: &mut [Fields], choice_true: u8)
    ensures
        final(list)@ == chosen(old(list)@, choice_true),
        final(list)@.len() == old(list)@.len(),
        forall|i: int|
            0 <= i < old(list)@.len() ==> {
                &&& (#[trigger] final(list)@[i]).status == (i % 256 == choice_true as int)
                &&& final(list)@[i].name == old(list)@[i].name
            },
{
    let n = list.len();
    let mut i: usize = 0;
    while i < n
        invariant
            n == list@.len(),
            n == old(list)@.len(),
            i <= n,
            forall|j: int| 0 <= j < i ==> #[trigger] list@[j] == chosen(old(list)@, choice_true)[j],
            forall|j: int| i <= j < n ==> #[trigger] list@[j] == old(list)@[j],
        decreases n - i,
    {
        let on = (i % 256) as u8 == choice_true;
        list[i].status = on;
        i += 1;
    }
    assert(list@ =~= chosen(old(list)@, choice_true));
}

/// Returns the index of the selected option (the last one switched on),
/// truncated to a byte; 0 when none is switched on.
pub fn enabled_index(list: &[Fields]) -> (index: u8)
    ensures
        index == enabled_index_of(list@),
{
    let mut index: u8 = 0;
    let n = list.len();
    let mut i: usize = 0;
    while i < n
        invariant
            n == list@.len(),
            i <= n,
            index == enabled_index_of(list@.take(i as int)),
        decreases n - i,
    {
        assert(list@.take(i + 1).drop_last() =~= list@.take(i as int));
        if list[i].status {
            index = (i % 256) as u8;
        }
        i += 1;
    }
    assert(list@.take(n as int) =~= list@);
    index
}

/// The enabled position is a switched-on option and every later one is off;
/// when it is -1 no option is on.
pub proof fn lemma_enabled_position(s: Seq<Fields>)
    ensures
        -1 <= enabled_position(s) < s.len(),
        enabled_position(s) >= 0 ==> s[enabled_position(s)].status,
        forall|j: int| enabled_position(s) < j < s.len() ==> !(#[trigger] s[j]).status,
    decreases s.len(),
{
    if s.len() > 0 && !s.last().status {
        lemma_enabled_position(s.drop_last());
        assert forall|j: int| enabled_position(s) < j < s.len() implies !(#[trigger] s[j]).status by {
            if j < s.len() - 1 {
                assert(s[j] == s.drop_last()[j]);
            }
        }
    }
}

/// Choosing an option and then asking which one is selected gives back the
/// choice when it names a position of the list, and 0 otherwise.
pub proof fn lemma_enabled_index_after_change_choice(s: Seq<Fields>, choice_true: u8)
    ensures
        choice_true < s.len() ==> enabled_index_of(chosen(s, choice_true)) == choice_true,
        choice_true >= s.len() ==> enabled_index_of(chosen(s, choice_true)) == 0,
    decreases s.len(),
{
    let c = chosen(s, choice_true);
    if s.len() > 0 {
        assert(c.drop_last() =~= chosen(s.drop_last(), choice_true));
        lemma_enabled_index_after_change_choice(s.drop_last(), choice_true);
        if !picks(s.len() - 1, choice_true) {
            lemma_enabled_position(c.drop_last());
        }
    }
}

/// After choosing `c`, the option at position `i` is on exactly when `i`
/// equals `c` modulo 256, and keeps its name; in particular the option at
/// `c` is on when `c` is a position of the list.
pub proof fn lemma_chosen_options(s: Seq<Fields>, c: u8)
    ensures
        chosen(s, c).len() == s.len(),
        forall|i: int|
            0 <= i < s.len() ==> {
                &&& (#[trigger] chosen(s, c)[i]).status == (i % 256 == c as int)
                &&& chosen(s, c)[i].name == s[i].name
            },
        (c as int) < s.len() ==> chosen(s, c)[c as int].status,
{
}

/// Choosing the same option twice is the same as choosing it once.
pub proof fn lemma_change_choice_idempotent(s: Seq<Fields>, choice_true: u8)
    ensures
        chosen(chosen(s, choice_true), choice_true) == chosen(s, choice_true),
{
    assert(chosen(chosen(s, choice_true), choice_true) =~= chosen(s, choice_true));
}

} // verus!
