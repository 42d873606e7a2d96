//! Account books: who has committed how much.

use vstd::prelude::*;

use crate::types::Address;

verus! {

/// One line of an account book.
#[derive(Clone, Copy, Debug, PartialEq, Eq, Structural)]
pub struct Entry {
    pub who: Address,
    pub amount: i128,
}

/// An account book: participants in the order in which they joined, each with the
/// amount standing to their name.
pub struct Book {
    pub entries: Vec<Entry>,
}

impl View for Book {
    type V = Seq<Entry>;

    open spec fn view(&self) -> Seq<Entry> {
        self.entries@
    }
}

/// No participant has two lines, and no amount is negative.
pub open spec fn book_wf(s: Seq<Entry>) -> bool {
    &&& forall|i: int, j: int| 0 <= i < j < s.len() ==> s[i].who != s[j].who
    &&& forall|i: int| 0 <= i < s.len() ==> (#[trigger] s[i]).amount >= 0
}

/// Whether `who` has a line.
pub open spec fn listed(s: Seq<Entry>, who: Address) -> bool {
    exists|i: int| 0 <= i < s.len() && (#[trigger] s[i]).who == who
}

/// The place of `who`'s line.
pub open spec fn place_of(s: Seq<Entry>, who: Address) -> int {
    choose|i: int| 0 <= i < s.len() && (#[trigger] s[i]).who == who
}

/// The amount standing to `who`'s name; nothing for somebody without a line.
pub open spec fn amount_of(s: Seq<Entry>, who: Address) -> int {
    if listed(s, who) {
        s[place_of(s, who)].amount as int
    } else {
        0
    }
}

/// The sum of all amounts.
pub open spec fn total(s: Seq<Entry>) -> int
    decreases s.len(),
{
    if s.len() == 0 {
        0
    } else {
        total(s.drop_last()) + s.last().amount
    }
}

/// The book after `amount` is written down as `who`'s new standing: in the line that
/// `who` has, or in a new last line.
pub open spec fn with_amount(s: Seq<Entry>, who: Address, amount: i128) -> Seq<Entry> {
    if listed(s, who) {
        s.update(place_of(s, who), Entry { who, amount })
    } else {
        s.push(Entry { who, amount })
    }
}

/// The participants, in the order in which they joined.
pub open spec fn participants(s: Seq<Entry>) -> Seq<Address> {
    s.map_values(|e: Entry| e.who)
}

/// Changing one line changes the sum by the difference.
pub proof fn lemma_total_update(s: Seq<Entry>, i: int, e: Entry)
    requires
        0 <= i < s.len(),
    ensures
        total(s.update(i, e)) == total(s) - s[i].amount + e.amount,
    decreases s.len(),
{
    let t = s.update(i, e);
    if i == s.len() - 1 {
        assert(t.drop_last() =~= s.drop_last());
    } else {
        assert(t.drop_last() =~= s.drop_last().update(i, e));
        lemma_total_update(s.drop_last(), i, e);
    }
}

/// A new line adds its amount to the sum.
pub proof fn lemma_total_push(s: Seq<Entry>, e: Entry)
    ensures
        total(s.push(e)) == total(s) + e.amount,
{
    assert(s.push(e).drop_last() =~= s);
}

/// No line exceeds the sum.
pub proof fn lemma_line_within_total(s: Seq<Entry>, i: int)
    requires
        0 <= i < s.len(),
        forall|j: int| 0 <= j < s.len() ==> (#[trigger] s[j]).amount >= 0,
    ensures
        0 <= s[i].amount <= total(s),
    decreases s.len(),
{
    let t = s.drop_last();
    lemma_total_nonneg(t);
    if i < s.len() - 1 {
        assert forall|j: int| 0 <= j < t.len() implies (#[trigger] t[j]).amount >= 0 by {
            assert(t[j] == s[j]);
        }
        lemma_line_within_total(t, i);
        assert(t[i] == s[i]);
    }
}

/// A book without negative amounts has a sum that is not negative.
pub proof fn lemma_total_nonneg(s: Seq<Entry>)
    requires
        forall|j: int| 0 <= j < s.len() ==> (#[trigger] s[j]).amount >= 0,
    ensures
        0 <= total(s),
    decreases s.len(),
{
    if s.len() > 0 {
        let t = s.drop_last();
        assert forall|j: int| 0 <= j < t.len() implies (#[trigger] t[j]).amount >= 0 by {
            assert(t[j] == s[j]);
        }
        lemma_total_nonneg(t);
    }
}

/// A well-formed book stays so without its last line.
pub proof fn lemma_book_drop_last(s: Seq<Entry>)
    requires
        book_wf(s),
        s.len() > 0,
    ensures
        book_wf(s.drop_last()),
{
    let t = s.drop_last();
    assert forall|i: int, j: int| 0 <= i < j < t.len() implies t[i].who != t[j].who by {
        assert(s[i].who != s[j].who);
    }
    assert forall|i: int| 0 <= i < t.len() implies (#[trigger] t[i]).amount >= 0 by {
        assert(t[i] == s[i]);
    }
}

/// In a well-formed book the line found for a participant is the only one.
pub proof fn lemma_place_unique(s: Seq<Entry>, i: int)
    requires
        book_wf(s),
        0 <= i < s.len(),
    ensures
        listed(s, s[i].who),
        place_of(s, s[i].who) == i,
        amount_of(s, s[i].who) == s[i].amount,
{
    let p = place_of(s, s[i].who);
    assert(s[p].who == s[i].who);
}

/// Nobody's standing is negative.
pub proof fn lemma_amount_nonneg(s: Seq<Entry>, who: Address)
    requires
        book_wf(s),
    ensures
        0 <= amount_of(s, who) <= total(s),
{
    lemma_total_nonneg(s);
    if listed(s, who) {
        lemma_line_within_total(s, place_of(s, who));
    }
}

/// What `with_amount` does to the sum, to the participant's standing and to
/// everybody else's.
pub proof fn lemma_with_amount(s: Seq<Entry>, who: Address, amount: i128)
    requires
        book_wf(s),
        amount >= 0,
    ensures
        book_wf(with_amount(s, who, amount)),
        total(with_amount(s, who, amount)) == total(s) - amount_of(s, who) + amount,
        listed(with_amount(s, who, amount), who),
        amount_of(with_amount(s, who, amount), who) == amount,
        forall|other: Address|
            other != who ==> #[trigger] amount_of(with_amount(s, who, amount), other) == amount_of(
                s,
                other,
            ),
        0 <= amount_of(s, who) <= total(s),
{
    let t = with_amount(s, who, amount);
    let p = place_of(s, who);
    lemma_total_nonneg(s);
    if listed(s, who) {
        lemma_total_update(s, p, Entry { who, amount });
        lemma_line_within_total(s, p);
        assert(t[p].who == who);
        lemma_place_unique(t, p);
    } else {
        lemma_total_push(s, Entry { who, amount });
        assert(t[s.len() as int].who == who);
        lemma_place_unique(t, s.len() as int);
    }
    assert forall|other: Address| other != who implies #[trigger] amount_of(t, other) == amount_of(
        s,
        other,
    ) by {
        if listed(s, other) {
            let q = place_of(s, other);
            assert(t[q] == s[q]);
            lemma_place_unique(t, q);
        } else if listed(t, other) {
            let q = place_of(t, other);
            assert(t[q].who == other);
            assert(q < s.len() && s[q].who == other);
        }
    }
}

impl Book {
    /// A book without lines.
    pub fn new() -> (b: Book)
        ensures
            b@ == Seq::<Entry>::empty(),
    {
        Book { entries: Vec::new() }
    }

    /// Finds `who`'s line.
    pub fn find(&self, who: Address) -> (r: Option<usize>)
        ensures
            r is Some <==> listed(self@, who),
            r matches Some(i) ==> i < self@.len() && self@[i as int].who == who,
    {
        let mut i: usize = 0;
        while i < self.entries.len()
            invariant
                i <= self.entries@.len(),
                forall|j: int| 0 <= j < i ==> self.entries@[j].who != who,
            decreases self.entries@.len() - i,
        {
            if self.entries[i].who == who {
                assert(self@[i as int].who == who);
                return Some(i);
            }
            i = i + 1;
        }
        None
    }

    /// Whether `who` has a line.
    pub fn lists(&self, who: Address) -> (r: bool)
        ensures
            r == listed(self@, who),
    {
        match self.find(who) {
            Some(_) => true,
            None => false,
        }
    }

    /// The amount standing to `who`'s name.
    pub fn amount(&self, who: Address) -> (r: i128)
        requires
            book_wf(self@),
        ensures
            r == amount_of(self@, who),
    {
        match self.find(who) {
            Some(i) => {
                proof {
                    lemma_place_unique(self@, i as int);
                }
                self.entries[i].amount
            },
            None => 0,
        }
    }

    /// Writes down `amount` as `who`'s standing.
    pub fn set_amount(&mut self, who: Address, amount: i128)
        requires
            book_wf(old(self)@),
        ensures
            final(self)@ == with_amount(old(self)@, who, amount),
    {
        match self.find(who) {
            Some(i) => {
                proof {
                    lemma_place_unique(self@, i as int);
                }
                self.entries.set(i, Entry { who, amount });
            },
            None => {
                self.entries.push(Entry { who, amount });
            },
        }
    }

    /// Lists the participants in the order in which they joined.
    pub fn participants(&self) -> (r: Vec<Address>)
        ensures
            r@ == participants(self@),
    {
        let mut r: Vec<Address> = Vec::new();
        let mut i: usize = 0;
        while i < self.entries.len()
            invariant
                i <= self.entries@.len(),
                r@ == participants(self@.take(i as int)),
            decreases self.entries@.len() - i,
        {
            r.push(self.entries[i].who);
            assert(participants(self@.take(i + 1)) =~= participants(self@.take(i as int)).push(
                self@[i as int].who,
            ));
            i = i + 1;
        }
        assert(self@.take(i as int) =~= self@);
        r
    }
}

} // verus!
