//! What a store holds after any number of changes, told from the changes
//! alone. `Users::update_name` and `Users::update_question` make on a store
//! the changes that `Change::apply` makes on its view, so what is proved
//! here of `after` holds of every store that started empty.

use crate::record::{empty_answer, UserView};
use crate::store::{is_listing_of, keyed_by_secret, with_answer, with_name, Records};
use vstd::prelude::*;

verus! {

/// One change asked of the store, by its arguments.
pub enum Change {
    /// The participant `secret` sent the name `name`.
    Name { secret: Seq<char>, name: Seq<char> },
    /// The participant `secret` answered question `pos` with `value`.
    Answer { secret: Seq<char>, pos: nat, value: Seq<char> },
}

impl Change {
    /// The participant who asks for the change.
    pub open spec fn secret(self) -> Seq<char> {
        match self {
            Change::Name { secret, .. } => secret,
            Change::Answer { secret, .. } => secret,
        }
    }

    /// The store `m` once the change is made.
    pub open spec fn apply(self, m: Records) -> Records {
        match self {
            Change::Name { secret, name } => with_name(m, secret, name),
            Change::Answer { secret, pos, value } => with_answer(m, secret, pos, value),
        }
    }
}

/// The store that an empty store becomes when `changes` are made in order.
pub open spec fn after(changes: Seq<Change>) -> Records
    decreases changes.len(),
{
    if changes.len() == 0 {
        Map::empty()
    } else {
        changes.last().apply(after(changes.drop_last()))
    }
}

/// The secrets that `changes` name.
pub open spec fn secrets_used(changes: Seq<Change>) -> Set<Seq<char>> {
    Set::new(
        |k: Seq<char>| exists|i: int| 0 <= i < changes.len() && #[trigger] changes[i].secret() == k,
    )
}

/// The changes among `changes` that name `secret`, in their order.
pub open spec fn changes_of(changes: Seq<Change>, secret: Seq<char>) -> Seq<Change> {
    changes.filter(|c: Change| c.secret() == secret)
}

/// The value that the last of `changes` to answer question `pos` for
/// `secret` gave, if any of them did.
pub open spec fn last_answer(changes: Seq<Change>, secret: Seq<char>, pos: nat) -> Option<Seq<char>>
    decreases changes.len(),
{
    if changes.len() == 0 {
        None
    } else {
        match changes.last() {
            Change::Answer { secret: s, pos: p, value } if s == secret && p == pos => Some(value),
            _ => last_answer(changes.drop_last(), secret, pos),
        }
    }
}

/// A change touches the record of its own secret and no other: every record
/// on file stays on file, under the same secret, and the records of other
/// secrets stay as they are.
pub proof fn lemma_change_touches_one_record(change: Change, m: Records)
    ensures
        change.apply(m).dom() == m.dom().insert(change.secret()),
        forall|k: Seq<char>|
            k != change.secret() && m.contains_key(k) ==> #[trigger] change.apply(m)[k] == m[k],
        keyed_by_secret(m) ==> keyed_by_secret(change.apply(m)),
{
    assert(change.apply(m).dom() =~= m.dom().insert(change.secret()));
}

/// After any changes to an empty store, the secrets on file are exactly the
/// secrets the changes named, each record is filed under its own secret, and
/// there are finitely many.
pub proof fn lemma_secrets_on_file(changes: Seq<Change>)
    ensures
        after(changes).dom() == secrets_used(changes),
        after(changes).dom().finite(),
        keyed_by_secret(after(changes)),
    decreases changes.len(),
{
    if changes.len() == 0 {
        assert(after(changes).dom() =~= secrets_used(changes));
    } else {
        let earlier = changes.drop_last();
        let last = changes.last();
        lemma_secrets_on_file(earlier);
        assert(after(changes).dom() =~= after(earlier).dom().insert(last.secret()));
        assert forall|k: Seq<char>| secrets_used(changes).contains(k) <==> secrets_used(
            earlier,
        ).insert(last.secret()).contains(k) by {
            if secrets_used(changes).contains(k) {
                let i = choose|i: int| 0 <= i < changes.len() && #[trigger] changes[i].secret() == k;
                if i < earlier.len() {
                    assert(earlier[i].secret() == k);
                }
            }
            if secrets_used(earlier).contains(k) {
                let i = choose|i: int| 0 <= i < earlier.len() && #[trigger] earlier[i].secret() == k;
                assert(changes[i].secret() == k);
            }
            if k == last.secret() {
                assert(changes[changes.len() - 1].secret() == k);
            }
        }
        assert(secrets_used(changes) =~= secrets_used(earlier).insert(last.secret()));
    }
}

/// Whatever changes an empty store has seen, a listing of it holds a record
/// for each secret that a change named, none for any other secret, and no
/// secret twice.
pub proof fn lemma_one_record_per_secret(changes: Seq<Change>, records: Seq<UserView>)
    requires
        is_listing_of(records, after(changes)),
    ensures
        forall|i: int|
            0 <= i < records.len() ==> secrets_used(changes).contains(#[trigger] records[i].secret),
        forall|k: Seq<char>| #[trigger]
            secrets_used(changes).contains(k) ==> exists|i: int|
                0 <= i < records.len() && #[trigger] records[i].secret == k,
        forall|i: int, j: int|
            0 <= i < j < records.len() ==> #[trigger] records[i].secret != #[trigger] records[j].secret,
{
    lemma_secrets_on_file(changes);
    assert forall|k: Seq<char>| #[trigger] secrets_used(changes).contains(k) implies exists|i: int|
        0 <= i < records.len() && #[trigger] records[i].secret == k by {
        assert(after(changes).contains_key(k));
    }
}

/// A question that some change answered for `secret` is within the answers
/// of the record of `secret`.
pub proof fn lemma_answered_is_on_file(changes: Seq<Change>, secret: Seq<char>, pos: nat)
    requires
        last_answer(changes, secret, pos) is Some,
    ensures
        after(changes).contains_key(secret),
        pos < after(changes)[secret].answers.len(),
    decreases changes.len(),
{
    if changes.len() > 0 {
        let earlier = changes.drop_last();
        if last_answer(earlier, secret, pos) is Some {
            lemma_answered_is_on_file(earlier, secret, pos);
        }
    }
}

/// After any changes to an empty store, each position of each record holds
/// the value of the last change that answered it, and the filler if no
/// change did.
pub proof fn lemma_answers_follow_changes(changes: Seq<Change>, secret: Seq<char>, pos: nat)
    requires
        after(changes).contains_key(secret),
        pos < after(changes)[secret].answers.len(),
    ensures
        after(changes)[secret].answers[pos as int] == match last_answer(changes, secret, pos) {
            Some(value) => value,
            None => empty_answer(),
        },
    decreases changes.len(),
{
    if changes.len() > 0 {
        let earlier = changes.drop_last();
        let m = after(earlier);
        if m.contains_key(secret) && pos < m[secret].answers.len() {
            lemma_answers_follow_changes(earlier, secret, pos);
        } else if last_answer(earlier, secret, pos) is Some {
            lemma_answered_is_on_file(earlier, secret, pos);
        }
    }
}

/// What a store holds for a secret comes from the changes that name this
/// secret alone, in their order: the changes that others make in between, in
/// whatever interleaving, neither add to the record nor take from it.
pub proof fn lemma_record_follows_own_changes(changes: Seq<Change>, secret: Seq<char>)
    ensures
        after(changes).contains_key(secret) <==> changes_of(changes, secret).len() > 0,
        after(changes).contains_key(secret) ==> after(changes)[secret] == after(
            changes_of(changes, secret),
        )[secret],
    decreases changes.len(),
{
    reveal(Seq::filter);
    if changes.len() > 0 {
        let earlier = changes.drop_last();
        let last = changes.last();
        lemma_record_follows_own_changes(earlier, secret);
        if last.secret() == secret {
            let own = changes_of(earlier, secret);
            assert(changes_of(changes, secret) == own.push(last));
            assert(own.push(last).drop_last() =~= own);
            assert(own.push(last).last() == last);
            if own.len() > 0 {
                lemma_own_changes_are_on_file(earlier, secret);
            } else {
                assert(after(own) == Records::empty());
            }
        }
    }
}

/// Once a change has named `secret`, the changes that name it put a record
/// for it on file.
proof fn lemma_own_changes_are_on_file(changes: Seq<Change>, secret: Seq<char>)
    requires
        changes_of(changes, secret).len() > 0,
    ensures
        after(changes_of(changes, secret)).contains_key(secret),
    decreases changes.len(),
{
    reveal(Seq::filter);
    if changes.len() > 0 {
        let earlier = changes.drop_last();
        let last = changes.last();
        if last.secret() == secret {
            let own = changes_of(earlier, secret);
            assert(changes_of(changes, secret) == own.push(last));
            assert(own.push(last).drop_last() =~= own);
            assert(own.push(last).last() == last);
        } else {
            lemma_own_changes_are_on_file(earlier, secret);
        }
    }
}

} // verus!
