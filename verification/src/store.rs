//! The card repository: the table of cards in memory, with the queries and
//! statements that the application issues against it.
//!
//! The table is modelled as the sequence of its rows in ascending order of
//! identifier.  Rows are never removed: deleting a card sets its flag.

use vstd::prelude::*;
use crate::card::{Card, CardField, CardView};

verus! {

/// Every row has an identifier, and the identifiers strictly ascend.
pub open spec fn rows_valid(rows: Seq<CardView>) -> bool {
    &&& forall|i: int| 0 <= i < rows.len() ==> (#[trigger] rows[i]).rowid is Some
    &&& forall|i: int, j: int|
        0 <= i < j < rows.len() ==> (#[trigger] rows[i]).rowid->0 < (#[trigger] rows[j]).rowid->0
}

/// Some row, deleted or not, has the identifier `id`.
pub open spec fn has_id(rows: Seq<CardView>, id: i64) -> bool {
    exists|i: int| 0 <= i < rows.len() && (#[trigger] rows[i]).rowid == Some(id)
}

/// Some row that is not deleted has the identifier `id`.
pub open spec fn is_active_id(rows: Seq<CardView>, id: i64) -> bool {
    exists|i: int| 0 <= i < rows.len() && (#[trigger] rows[i]).rowid == Some(id) && !rows[i].deleted
}

/// The test that a listing applies to each row.
pub open spec fn not_deleted() -> spec_fn(CardView) -> bool {
    |row: CardView| !row.deleted
}

/// The rows that are not deleted, in table order.
pub open spec fn active_rows(rows: Seq<CardView>) -> Seq<CardView> {
    rows.filter(not_deleted())
}

/// The cards of a list, each by its view.
pub open spec fn card_views(cards: Seq<Card>) -> Seq<CardView> {
    cards.map_values(|card: Card| card@)
}

/// The row with identifier `id`, or the placeholder card where there is none.
pub open spec fn row_or_placeholder(rows: Seq<CardView>, id: i64) -> CardView {
    if has_id(rows, id) {
        rows[choose|i: int| 0 <= i < rows.len() && (#[trigger] rows[i]).rowid == Some(id)]
    } else {
        CardView::placeholder()
    }
}

/// `next` is what "the next active card after `n`" answers: the smallest
/// identifier of an active row above `n`, or nothing where no active row
/// lies above `n`.
pub open spec fn is_next_active(rows: Seq<CardView>, n: i64, next: Option<i64>) -> bool {
    match next {
        Some(m) => {
            &&& is_active_id(rows, m)
            &&& n < m
            &&& forall|k: i64| is_active_id(rows, k) && n < k ==> m <= k
        },
        None => forall|k: i64| is_active_id(rows, k) ==> k <= n,
    }
}

/// `prev` is what "the previous active card before `n`" answers: the largest
/// identifier of an active row below `n`, or nothing where no active row
/// lies below `n`.
pub open spec fn is_prev_active(rows: Seq<CardView>, n: i64, prev: Option<i64>) -> bool {
    match prev {
        Some(m) => {
            &&& is_active_id(rows, m)
            &&& m < n
            &&& forall|k: i64| is_active_id(rows, k) && k < n ==> k <= m
        },
        None => forall|k: i64| is_active_id(rows, k) ==> n <= k,
    }
}

/// The identifier that the next inserted row gets: one above the last
/// row's, or 1 in an empty table.
pub open spec fn next_rowid(rows: Seq<CardView>) -> int {
    if rows.len() == 0 {
        1
    } else {
        rows.last().rowid->0 + 1
    }
}

/// The table after a placeholder card was inserted.
pub open spec fn rows_after_insert(rows: Seq<CardView>) -> Seq<CardView> {
    rows.push(CardView::placeholder().with_rowid(next_rowid(rows) as i64))
}

/// The table after the row with identifier `id`, if there is one, was
/// marked as deleted.
pub open spec fn rows_after_soft_delete(rows: Seq<CardView>, id: i64) -> Seq<CardView> {
    Seq::new(
        rows.len(),
        |i: int|
            if rows[i].rowid == Some(id) {
                rows[i].soft_deleted()
            } else {
                rows[i]
            },
    )
}

/// The table after one field of the row with identifier `id`, if there is
/// one, was rewritten.
pub open spec fn rows_after_update(
    rows: Seq<CardView>,
    id: i64,
    field: CardField,
    value: Seq<char>,
) -> Seq<CardView> {
    Seq::new(
        rows.len(),
        |i: int|
            if rows[i].rowid == Some(id) {
                rows[i].with_field(field, value)
            } else {
                rows[i]
            },
    )
}

/// The table after the cards with the identifiers `ids` were soft-deleted
/// one after the other.
pub open spec fn rows_after_soft_deletes(rows: Seq<CardView>, ids: Seq<i64>) -> Seq<CardView>
    decreases ids.len(),
{
    if ids.len() == 0 {
        rows
    } else {
        rows_after_soft_delete(rows_after_soft_deletes(rows, ids.drop_last()), ids.last())
    }
}

/// The table after `n` placeholder cards were inserted one after the other.
pub open spec fn rows_after_inserts(rows: Seq<CardView>, n: nat) -> Seq<CardView>
    decreases n,
{
    if n == 0 {
        rows
    } else {
        rows_after_insert(rows_after_inserts(rows, (n - 1) as nat))
    }
}

/// A statement that changes the table.
#[derive(Debug, PartialEq, Eq)]
pub enum Statement {
    /// Insert a new card with placeholder texts.
    InsertCard,
    /// Set the delete flag of the card with this identifier.
    SoftDelete { id: i64 },
    /// Rewrite one field of the card with this identifier.
    UpdateField { id: i64, field: CardField, value: String },
}

/// What a [`Statement`] holds.
pub enum StatementView {
    InsertCard,
    SoftDelete { id: i64 },
    UpdateField { id: i64, field: CardField, value: Seq<char> },
}

impl View for Statement {
    type V = StatementView;

    open spec fn view(&self) -> StatementView {
        match *self {
            Statement::InsertCard => StatementView::InsertCard,
            Statement::SoftDelete { id } => StatementView::SoftDelete { id },
            Statement::UpdateField { id, field, value } => StatementView::UpdateField {
                id,
                field,
                value: value@,
            },
        }
    }
}

/// The table after a statement was executed.  An insert into a table in
/// which no identifier is left changes nothing.
pub open spec fn rows_after(rows: Seq<CardView>, statement: StatementView) -> Seq<CardView> {
    match statement {
        StatementView::InsertCard => if next_rowid(rows) <= i64::MAX {
            rows_after_insert(rows)
        } else {
            rows
        },
        StatementView::SoftDelete { id } => rows_after_soft_delete(rows, id),
        StatementView::UpdateField { id, field, value } => rows_after_update(rows, id, field, value),
    }
}

/// Why the store refused a write.
#[derive(Clone, Copy, Debug, PartialEq, Eq, Structural)]
pub enum StoreError {
    /// No identifier is left above the last row's.
    Full,
    /// The rows handed over lack an identifier or do not strictly ascend.
    InvalidRows,
}

/// The table of cards.
pub struct CardStore {
    cards: Vec<Card>,
}

impl View for CardStore {
    type V = Seq<CardView>;

    closed spec fn view(&self) -> Seq<CardView> {
        card_views(self.cards@)
    }
}

impl CardStore {
    #[verifier::type_invariant]
    spec fn well_formed(&self) -> bool {
        rows_valid(self@)
    }

    /// An empty table.
    pub fn new() -> (store: CardStore)
        ensures
            store@ == Seq::<CardView>::empty(),
    {
        CardStore { cards: Vec::new() }
    }

    /// Takes over rows as they were read from storage.  They are accepted
    /// exactly when each has an identifier and the identifiers strictly
    /// ascend.
    pub fn from_cards(cards: Vec<Card>) -> (result: Result<CardStore, StoreError>)
        ensures
            match result {
                Ok(store) => rows_valid(card_views(cards@)) && store@ == card_views(cards@),
                Err(error) => error == StoreError::InvalidRows && !rows_valid(card_views(cards@)),
            },
    {
        let ghost rows = card_views(cards@);
        let mut i: usize = 0;
        let mut last: Option<i64> = None;
        while i < cards.len()
            invariant
                i <= cards.len(),
                rows == card_views(cards@),
                rows_valid(rows.take(i as int)),
                i == 0 ==> last is None,
                i > 0 ==> last == rows[i - 1].rowid,
            decreases cards.len() - i,
        {
            match cards[i].rowid {
                Some(id) => {
                    if let Some(below) = last {
                        if below >= id {
                            assert(rows[i - 1].rowid->0 >= rows[i as int].rowid->0);
                            return Err(StoreError::InvalidRows);
                        }
                    }
                    last = Some(id);
                },
                None => {
                    return Err(StoreError::InvalidRows);
                },
            }
            proof {
                let shorter = rows.take(i as int);
                let longer = rows.take(i as int + 1);
                assert forall|a: int, b: int| 0 <= a < b < longer.len() implies (#[trigger] longer[a]).rowid->0
                    < (#[trigger] longer[b]).rowid->0 by {
                    if a < i - 1 && b == i {
                        assert(shorter[a].rowid->0 < shorter[i - 1].rowid->0);
                    }
                }
            }
            i += 1;
        }
        assert(rows.take(i as int) =~= rows);
        Ok(CardStore { cards })
    }

    /// The number of rows, deleted ones included.  Of every store it also
    /// says that its rows are valid.
    pub fn len(&self) -> (n: usize)
        ensures
            n == self@.len(),
            rows_valid(self@),
    {
        proof {
            use_type_invariant(self);
        }
        self.cards.len()
    }

    /// Where in the table the row with identifier `id` stands.
    fn position(&self, id: i64) -> (at: Option<usize>)
        ensures
            match at {
                Some(i) => i < self@.len() && self@[i as int].rowid == Some(id),
                None => !has_id(self@, id),
            },
    {
        let mut i: usize = 0;
        while i < self.cards.len()
            invariant
                i <= self.cards.len(),
                forall|j: int| 0 <= j < i ==> (#[trigger] self@[j]).rowid != Some(id),
            decreases self.cards.len() - i,
        {
            if self.cards[i].rowid == Some(id) {
                return Some(i);
            }
            i += 1;
        }
        None
    }

    /// Moves the rows out, leaving an empty table behind, so that they can
    /// be changed and put back as a whole.
    fn take_cards(&mut self) -> (cards: Vec<Card>)
        ensures
            card_views(cards@) == old(self)@,
            final(self)@ == Seq::<CardView>::empty(),
    {
        let mut cards: Vec<Card> = Vec::new();
        core::mem::swap(&mut self.cards, &mut cards);
        cards
    }

    /// Fetches a single card by identifier.  Where no row has the identifier
    /// the answer is the placeholder card, not a failure; a deleted card is
    /// still found.
    pub fn get(&self, id: i64) -> (card: Card)
        ensures
            card@ == row_or_placeholder(self@, id),
    {
        proof {
            use_type_invariant(self);
        }
        match self.position(id) {
            Some(i) => {
                proof {
                    lemma_row_of_id(self@, id, i as int);
                }
                self.cards[i].clone()
            },
            None => Card::default(),
        }
    }

    /// Lists the active cards: every card that is not deleted, in ascending
    /// order of identifier.  The store is left as it is, so a second listing
    /// gives the same cards.
    pub fn list_active(&self) -> (cards: Vec<Card>)
        ensures
            card_views(cards@) == active_rows(self@),
            rows_valid(card_views(cards@)),
    {
        proof {
            use_type_invariant(self);
            lemma_listing_holds_the_active_cards(self@);
        }
        let mut cards: Vec<Card> = Vec::new();
        let mut i: usize = 0;
        while i < self.cards.len()
            invariant
                i <= self.cards.len(),
                card_views(cards@) == active_rows(self@.take(i as int)),
            decreases self.cards.len() - i,
        {
            proof {
                self@.take(i as int).lemma_filter_push(self@[i as int], not_deleted());
                assert(self@.take(i as int + 1) =~= self@.take(i as int).push(self@[i as int]));
            }
            if !self.cards[i].deleted {
                cards.push(self.cards[i].clone());
            }
            i += 1;
        }
        assert(self@.take(i as int) =~= self@);
        cards
    }

    /// Selects the next active identifier after `n`: the smallest
    /// identifier above `n` of a card that is not deleted, if there is one.
    pub fn next_active_after(&self, n: i64) -> (next: Option<i64>)
        ensures
            is_next_active(self@, n, next),
    {
        proof {
            use_type_invariant(self);
        }
        let mut i: usize = 0;
        while i < self.cards.len()
            invariant
                i <= self.cards.len(),
                rows_valid(self@),
                forall|j: int| 0 <= j < i ==> (#[trigger] self@[j]).deleted || self@[j].rowid->0 <= n,
            decreases self.cards.len() - i,
        {
            let card = &self.cards[i];
            match card.rowid {
                Some(id) => {
                    if !card.deleted && id > n {
                        assert(self@[i as int].rowid == Some(id));
                        return Some(id);
                    }
                },
                None => {},
            }
            i += 1;
        }
        None
    }

    /// Selects the previous active identifier before `n`: the largest
    /// identifier below `n` of a card that is not deleted, if there is one.
    pub fn prev_active_before(&self, n: i64) -> (prev: Option<i64>)
        ensures
            is_prev_active(self@, n, prev),
    {
        proof {
            use_type_invariant(self);
        }
        let mut i: usize = self.cards.len();
        while i > 0
            invariant
                i <= self.cards.len(),
                rows_valid(self@),
                forall|j: int|
                    i <= j < self@.len() ==> (#[trigger] self@[j]).deleted || n <= self@[j].rowid->0,
            decreases i,
        {
            i -= 1;
            let card = &self.cards[i];
            match card.rowid {
                Some(id) => {
                    if !card.deleted && id < n {
                        assert(self@[i as int].rowid == Some(id));
                        return Some(id);
                    }
                },
                None => {},
            }
        }
        None
    }

    /// Inserts a new card with placeholder texts and returns its
    /// identifier.  The write is refused, and the table left as it is, only
    /// where no identifier is left above the last row's.
    pub fn insert_new(&mut self) -> (result: Result<i64, StoreError>)
        ensures
            match result {
                Ok(id) => {
                    &&& id == next_rowid(old(self)@)
                    &&& final(self)@ == rows_after_insert(old(self)@)
                },
                Err(error) => {
                    &&& error == StoreError::Full
                    &&& next_rowid(old(self)@) > i64::MAX
                    &&& final(self)@ == old(self)@
                },
            },
    {
        proof {
            use_type_invariant(&*self);
        }
        let len = self.cards.len();
        let id: i64 = if len == 0 {
            1
        } else {
            match self.cards[len - 1].rowid {
                Some(last) => {
                    if last == i64::MAX {
                        return Err(StoreError::Full);
                    }
                    last + 1
                },
                None => {
                    return Err(StoreError::Full);
                },
            }
        };
        let mut card = Card::default();
        card.rowid = Some(id);
        let ghost before = self@;
        let mut cards = self.take_cards();
        cards.push(card);
        assert(card_views(cards@) =~= rows_after_insert(before));
        self.cards = cards;
        Ok(id)
    }

    /// Soft-deletes by identifier: the card's flag is set and the row
    /// stays.  Where no row has the identifier nothing changes.
    pub fn soft_delete(&mut self, id: i64)
        ensures
            final(self)@ == rows_after_soft_delete(old(self)@, id),
    {
        proof {
            use_type_invariant(&*self);
        }
        let ghost before = self@;
        match self.position(id) {
            Some(i) => {
                proof {
                    lemma_row_of_id(before, id, i as int);
                }
                let mut cards = self.take_cards();
                cards[i].deleted = true;
                assert(card_views(cards@) =~= rows_after_soft_delete(before, id));
                self.cards = cards;
            },
            None => {},
        }
    }

    /// Updates one field by identifier: the title, the question or the
    /// answer is rewritten and nothing else.  Where no row has the
    /// identifier nothing changes, and that is no failure.
    pub fn update_field(&mut self, id: i64, field: CardField, value: String)
        ensures
            final(self)@ == rows_after_update(old(self)@, id, field, value@),
    {
        proof {
            use_type_invariant(&*self);
        }
        let ghost before = self@;
        match self.position(id) {
            Some(i) => {
                proof {
                    lemma_row_of_id(before, id, i as int);
                }
                let mut cards = self.take_cards();
                cards[i].set_field(field, value);
                assert(card_views(cards@) =~= rows_after_update(before, id, field, value@));
                self.cards = cards;
            },
            None => {},
        }
    }

    /// Executes a statement.  Only an insert can fail, and it does so
    /// exactly when no identifier is left; the table is then unchanged.
    pub fn execute(&mut self, statement: Statement) -> (result: Result<(), StoreError>)
        ensures
            final(self)@ == rows_after(old(self)@, statement@),
            result is Err <==> statement@ is InsertCard && next_rowid(old(self)@) > i64::MAX,
            result is Err ==> result->Err_0 == StoreError::Full,
    {
        match statement {
            Statement::InsertCard => match self.insert_new() {
                Ok(_) => Ok(()),
                Err(error) => Err(error),
            },
            Statement::SoftDelete { id } => {
                self.soft_delete(id);
                Ok(())
            },
            Statement::UpdateField { id, field, value } => {
                self.update_field(id, field, value);
                Ok(())
            },
        }
    }
}

/// In a valid table the row found under an identifier is the only one.
pub proof fn lemma_row_of_id(rows: Seq<CardView>, id: i64, i: int)
    requires
        rows_valid(rows),
        0 <= i < rows.len(),
        rows[i].rowid == Some(id),
    ensures
        has_id(rows, id),
        row_or_placeholder(rows, id) == rows[i],
{
    let j = choose|j: int| 0 <= j < rows.len() && (#[trigger] rows[j]).rowid == Some(id);
    assert(j == i);
}

/// A listing holds exactly the active cards, each once, in ascending order
/// of identifier, which is the order that navigation goes by.
pub proof fn lemma_listing_holds_the_active_cards(rows: Seq<CardView>)
    requires
        rows_valid(rows),
    ensures
        rows_valid(active_rows(rows)),
        forall|k: int|
            0 <= k < active_rows(rows).len() ==> !(#[trigger] active_rows(rows)[k]).deleted
                && is_active_id(rows, active_rows(rows)[k].rowid->0),
        forall|id: i64|
            is_active_id(rows, id) ==> exists|k: int|
                0 <= k < active_rows(rows).len() && (#[trigger] active_rows(rows)[k]).rowid == Some(
                    id,
                ),
    decreases rows.len(),
{
    reveal(Seq::filter);
    let listed = active_rows(rows);
    if rows.len() > 0 {
        let init = rows.drop_last();
        let last = rows.last();
        let listed_init = active_rows(init);
        assert(rows_valid(init)) by {
            assert forall|i: int| 0 <= i < init.len() implies init[i] == rows[i] by {}
        }
        lemma_listing_holds_the_active_cards(init);
        assert(listed == if last.deleted {
            listed_init
        } else {
            listed_init.push(last)
        });
        // Every card listed so far stands before the last row.
        assert forall|k: int| 0 <= k < listed_init.len() implies is_active_id(
            rows,
            (#[trigger] listed_init[k]).rowid->0,
        ) && listed_init[k].rowid->0 < last.rowid->0 by {
            let id = listed_init[k].rowid->0;
            let i = choose|i: int|
                0 <= i < init.len() && (#[trigger] init[i]).rowid == Some(id) && !init[i].deleted;
            assert(rows[i] == init[i]);
        }
        assert forall|id: i64| is_active_id(rows, id) implies exists|k: int|
            0 <= k < listed.len() && (#[trigger] listed[k]).rowid == Some(id) by {
            let i = choose|i: int|
                0 <= i < rows.len() && (#[trigger] rows[i]).rowid == Some(id) && !rows[i].deleted;
            if i < init.len() {
                assert(init[i] == rows[i]);
                assert(is_active_id(init, id));
                let k = choose|k: int|
                    0 <= k < listed_init.len() && (#[trigger] listed_init[k]).rowid == Some(id);
                assert(listed[k] == listed_init[k]);
            } else {
                assert(listed[listed_init.len() as int] == last);
            }
        }
        assert(rows_valid(listed)) by {
            assert forall|k: int| 0 <= k < listed_init.len() implies listed[k] == listed_init[k] by {}
        }
    }
}

/// In a valid table no two rows share an identifier.
pub proof fn lemma_identifiers_are_unique(rows: Seq<CardView>, i: int, j: int)
    requires
        rows_valid(rows),
        0 <= i < rows.len(),
        0 <= j < rows.len(),
        i != j,
    ensures
        rows[i].rowid != rows[j].rowid,
{
}

/// Soft-deleting keeps the table valid, keeps every identifier where it
/// was, never clears a flag that was set, and sets the flag of the card that
/// was named.
pub proof fn lemma_soft_delete_hides(rows: Seq<CardView>, id: i64)
    requires
        rows_valid(rows),
    ensures
        rows_valid(rows_after_soft_delete(rows, id)),
        rows_after_soft_delete(rows, id).len() == rows.len(),
        !is_active_id(rows_after_soft_delete(rows, id), id),
        forall|other: i64|
            !is_active_id(rows, other) ==> !is_active_id(rows_after_soft_delete(rows, id), other),
        forall|other: i64| has_id(rows, other) <==> has_id(rows_after_soft_delete(rows, id), other),
{
    let after = rows_after_soft_delete(rows, id);
    assert forall|i: int| 0 <= i < after.len() implies (#[trigger] after[i]).rowid == rows[i].rowid by {}
    assert forall|other: i64| !is_active_id(rows, other) implies !is_active_id(after, other) by {
        if is_active_id(after, other) {
            let i = choose|i: int|
                0 <= i < after.len() && (#[trigger] after[i]).rowid == Some(other)
                    && !after[i].deleted;
            assert(rows[i].rowid == Some(other) && !rows[i].deleted);
        }
    }
    assert forall|other: i64| has_id(rows, other) <==> has_id(after, other) by {
        if has_id(rows, other) {
            let i = choose|i: int| 0 <= i < rows.len() && (#[trigger] rows[i]).rowid == Some(other);
            assert(after[i].rowid == Some(other));
        }
        if has_id(after, other) {
            let i = choose|i: int| 0 <= i < after.len() && (#[trigger] after[i]).rowid == Some(other);
            assert(rows[i].rowid == Some(other));
        }
    }
}

/// Whatever cards are soft-deleted, and in whatever order: afterwards none
/// of them is among the listed cards, and neither "next active" nor
/// "previous active" answers with one of them.
pub proof fn lemma_soft_deleted_cards_stay_hidden(rows: Seq<CardView>, ids: Seq<i64>)
    requires
        rows_valid(rows),
    ensures
        rows_valid(rows_after_soft_deletes(rows, ids)),
        forall|j: int|
            0 <= j < ids.len() ==> !is_active_id(
                rows_after_soft_deletes(rows, ids),
                #[trigger] ids[j],
            ),
        forall|k: int|
            0 <= k < active_rows(rows_after_soft_deletes(rows, ids)).len() ==> !ids.contains(
                (#[trigger] active_rows(rows_after_soft_deletes(rows, ids))[k]).rowid->0,
            ),
        forall|n: i64, next: i64|
            is_next_active(rows_after_soft_deletes(rows, ids), n, Some(next)) ==> !ids.contains(
                next,
            ),
        forall|n: i64, prev: i64|
            is_prev_active(rows_after_soft_deletes(rows, ids), n, Some(prev)) ==> !ids.contains(
                prev,
            ),
    decreases ids.len(),
{
    let after = rows_after_soft_deletes(rows, ids);
    if ids.len() > 0 {
        let earlier = rows_after_soft_deletes(rows, ids.drop_last());
        lemma_soft_deleted_cards_stay_hidden(rows, ids.drop_last());
        lemma_soft_delete_hides(earlier, ids.last());
        assert forall|j: int| 0 <= j < ids.len() implies !is_active_id(after, #[trigger] ids[j]) by {
            if j < ids.len() - 1 {
                assert(ids.drop_last()[j] == ids[j]);
            }
        }
    }
    // An identifier that was named is the identifier of no active row.
    assert forall|id: i64| ids.contains(id) implies !is_active_id(after, id) by {
        let j = choose|j: int| 0 <= j < ids.len() && ids[j] == id;
        assert(!is_active_id(after, ids[j]));
    }
    lemma_listing_holds_the_active_cards(after);
}

/// Inserting keeps the table valid and adds exactly one active card, under
/// an identifier that no row had before.
pub proof fn lemma_insert_adds_one_active_card(rows: Seq<CardView>)
    requires
        rows_valid(rows),
        next_rowid(rows) <= i64::MAX,
    ensures
        rows_valid(rows_after_insert(rows)),
        !has_id(rows, next_rowid(rows) as i64),
        active_rows(rows_after_insert(rows)) == active_rows(rows).push(
            CardView::placeholder().with_rowid(next_rowid(rows) as i64),
        ),
        next_rowid(rows_after_insert(rows)) == next_rowid(rows) + 1,
{
    let id = next_rowid(rows) as i64;
    let after = rows_after_insert(rows);
    assert forall|i: int| 0 <= i < rows.len() implies (#[trigger] rows[i]).rowid->0 < id
        && after[i] == rows[i] by {
        if i < rows.len() - 1 {
            assert(rows[i].rowid->0 < rows.last().rowid->0);
        }
    }
    rows.lemma_filter_push(CardView::placeholder().with_rowid(id), not_deleted());
}

/// Inserting `n` cards adds exactly `n` entries to the listing, so that a
/// table that was empty lists exactly `n` cards afterwards; and the listed
/// identifiers are pairwise different.
pub proof fn lemma_inserts_are_listed(rows: Seq<CardView>, n: nat)
    requires
        rows_valid(rows),
        next_rowid(rows) + n - 1 <= i64::MAX,
    ensures
        rows_valid(rows_after_inserts(rows, n)),
        next_rowid(rows_after_inserts(rows, n)) == next_rowid(rows) + n,
        active_rows(rows_after_inserts(rows, n)).len() == active_rows(rows).len() + n,
        rows.len() == 0 ==> active_rows(rows_after_inserts(rows, n)).len() == n,
        forall|a: int, b: int|
            0 <= a < b < active_rows(rows_after_inserts(rows, n)).len() ==> (
            #[trigger] active_rows(rows_after_inserts(rows, n))[a]).rowid != (
            #[trigger] active_rows(rows_after_inserts(rows, n))[b]).rowid,
    decreases n,
{
    if n > 0 {
        lemma_inserts_are_listed(rows, (n - 1) as nat);
        lemma_insert_adds_one_active_card(rows_after_inserts(rows, (n - 1) as nat));
    }
    let listed = active_rows(rows_after_inserts(rows, n));
    lemma_listing_holds_the_active_cards(rows_after_inserts(rows, n));
    assert forall|a: int, b: int| 0 <= a < b < listed.len() implies (#[trigger] listed[a]).rowid != (
    #[trigger] listed[b]).rowid by {
        lemma_identifiers_are_unique(listed, a, b);
    }
}

/// Updating a field and fetching the same card again gives the new text
/// and leaves the card's other contents as they were.  Updating under an
/// identifier that no row has changes nothing.
pub proof fn lemma_update_then_get(rows: Seq<CardView>, id: i64, field: CardField, value: Seq<char>)
    requires
        rows_valid(rows),
    ensures
        rows_valid(rows_after_update(rows, id, field, value)),
        has_id(rows, id) ==> row_or_placeholder(rows_after_update(rows, id, field, value), id)
            == row_or_placeholder(rows, id).with_field(field, value),
        has_id(rows, id) ==> row_or_placeholder(rows_after_update(rows, id, field, value), id).field(
            field,
        ) == value,
        !has_id(rows, id) ==> rows_after_update(rows, id, field, value) == rows,
        forall|other: i64|
            other != id ==> row_or_placeholder(rows_after_update(rows, id, field, value), other)
                == row_or_placeholder(rows, other),
{
    let after = rows_after_update(rows, id, field, value);
    assert forall|i: int| 0 <= i < after.len() implies (#[trigger] after[i]).rowid == rows[i].rowid by {}
    if has_id(rows, id) {
        let i = choose|i: int| 0 <= i < rows.len() && (#[trigger] rows[i]).rowid == Some(id);
        lemma_row_of_id(rows, id, i);
        lemma_row_of_id(after, id, i);
    } else {
        assert(after =~= rows);
    }
    assert forall|other: i64| other != id implies row_or_placeholder(after, other)
        == row_or_placeholder(rows, other) by {
        if has_id(rows, other) {
            let i = choose|i: int| 0 <= i < rows.len() && (#[trigger] rows[i]).rowid == Some(other);
            lemma_row_of_id(rows, other, i);
            lemma_row_of_id(after, other, i);
        } else if has_id(after, other) {
            let i = choose|i: int| 0 <= i < after.len() && (#[trigger] after[i]).rowid == Some(other);
            assert(rows[i].rowid == Some(other));
        }
    }
}

/// Navigation has one answer: two answers to "next active after `n`" are
/// the same, and so are two answers to "previous active before `n`".
pub proof fn lemma_navigation_is_determined(
    rows: Seq<CardView>,
    n: i64,
    first: Option<i64>,
    second: Option<i64>,
)
    ensures
        is_next_active(rows, n, first) && is_next_active(rows, n, second) ==> first == second,
        is_prev_active(rows, n, first) && is_prev_active(rows, n, second) ==> first == second,
{
}

/// No statement removes a row or moves it, changes its identifier or its
/// timestamps, or clears its delete flag; and every statement keeps the
/// table valid.
pub proof fn lemma_statements_keep_rows(rows: Seq<CardView>, statement: StatementView)
    requires
        rows_valid(rows),
    ensures
        rows_valid(rows_after(rows, statement)),
        rows.len() <= rows_after(rows, statement).len(),
        forall|i: int|
            0 <= i < rows.len() ==> {
                let before = #[trigger] rows[i];
                let after = rows_after(rows, statement)[i];
                &&& after.rowid == before.rowid
                &&& after.last_question_viewed_ms == before.last_question_viewed_ms
                &&& after.last_answer_viewed_ms == before.last_answer_viewed_ms
                &&& before.deleted ==> after.deleted
            },
{
    match statement {
        StatementView::InsertCard => {
            if next_rowid(rows) <= i64::MAX {
                lemma_insert_adds_one_active_card(rows);
            }
        },
        StatementView::SoftDelete { id } => {
            lemma_soft_delete_hides(rows, id);
        },
        StatementView::UpdateField { id, field, value } => {
            lemma_update_then_get(rows, id, field, value);
        },
    }
}

} // verus!
