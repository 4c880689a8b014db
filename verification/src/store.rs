//! The participant store: one record per secret, created on the first write
//! that names the secret and changed in place afterwards. Records are found
//! through a hash index, so a write does not search the other records.

use crate::record::{empty_answer, place_answer, User, UserView};
use vstd::hash_map::StringHashMap;
use vstd::prelude::*;

verus! {

/// The store as a mathematical map from secret to record.
pub type Records = Map<Seq<char>, UserView>;

/// Every record is filed under its own secret.
pub open spec fn keyed_by_secret(m: Records) -> bool {
    forall|k: Seq<char>| #[trigger] m.contains_key(k) ==> m[k].secret == k
}

/// The answers that `m` holds for `secret`: none where it has no record.
pub open spec fn answers_on_file(m: Records, secret: Seq<char>) -> Seq<Seq<char>> {
    if m.contains_key(secret) {
        m[secret].answers
    } else {
        Seq::empty()
    }
}

/// The store after the participant `secret` has sent `name`: an existing
/// record keeps its answers, a new one starts without any.
pub open spec fn with_name(m: Records, secret: Seq<char>, name: Seq<char>) -> Records {
    m.insert(secret, UserView { secret, name: Some(name), answers: answers_on_file(m, secret) })
}

/// The store after the participant `secret` has answered question `pos` with
/// `value`: an existing record keeps its name, a new one starts without one,
/// and the answer is placed as `place_answer` says.
pub open spec fn with_answer(m: Records, secret: Seq<char>, pos: nat, value: Seq<char>) -> Records {
    m.insert(
        secret,
        UserView {
            secret,
            name: if m.contains_key(secret) {
                m[secret].name
            } else {
                None
            },
            answers: place_answer(answers_on_file(m, secret), pos, value),
        },
    )
}

/// `records` lists the store `m`: each listed record is the one `m` files
/// under its secret, no secret is listed twice, and no secret of `m` is
/// missing. The order of the listing is left open.
pub open spec fn is_listing_of(records: Seq<UserView>, m: Records) -> bool {
    &&& forall|i: int|
        0 <= i < records.len() ==> m.contains_key(#[trigger] records[i].secret) && m[records[i].secret]
            == records[i]
    &&& forall|i: int, j: int|
        0 <= i < j < records.len() ==> #[trigger] records[i].secret != #[trigger] records[j].secret
    &&& forall|k: Seq<char>| #[trigger]
        m.contains_key(k) ==> exists|i: int| 0 <= i < records.len() && #[trigger] records[i].secret == k
}

/// Right after the participant `secret` answered question `pos` with `value`,
/// a listing of the store holds that participant's record, with `value` at
/// `pos` and the filler at every position below `pos` that the record did not
/// have before.
pub proof fn lemma_answer_is_listed(
    m: Records,
    secret: Seq<char>,
    pos: nat,
    value: Seq<char>,
    records: Seq<UserView>,
)
    requires
        is_listing_of(records, with_answer(m, secret, pos, value)),
    ensures
        exists|i: int| 0 <= i < records.len() && #[trigger] records[i].secret == secret,
        forall|i: int|
            0 <= i < records.len() && #[trigger] records[i].secret == secret ==> pos
                < records[i].answers.len() && records[i].answers[pos as int] == value,
        forall|i: int, q: int|
            0 <= i < records.len() && records[i].secret == secret && answers_on_file(m, secret).len()
                <= q < pos ==> #[trigger] records[i].answers[q] == empty_answer(),
{
    assert(with_answer(m, secret, pos, value).contains_key(secret));
}

/// Answering a question that the record already has replaces that one answer
/// and leaves everything else in the store as it was.
pub proof fn lemma_answer_in_range_overwrites(
    m: Records,
    secret: Seq<char>,
    pos: nat,
    value: Seq<char>,
)
    requires
        keyed_by_secret(m),
        m.contains_key(secret),
        pos < m[secret].answers.len(),
    ensures
        with_answer(m, secret, pos, value) == m.insert(
            secret,
            UserView { answers: m[secret].answers.update(pos as int, value), ..m[secret] },
        ),
{
    assert(place_answer(m[secret].answers, pos, value) =~= m[secret].answers.update(
        pos as int,
        value,
    ));
}

/// `index` knows each of `records` by its secret, and nothing else.
spec fn indexed(records: Seq<UserView>, index: Map<Seq<char>, usize>) -> bool {
    &&& forall|i: int|
        0 <= i < records.len() ==> index.contains_key(#[trigger] records[i].secret)
            && index[records[i].secret] == i
    &&& forall|k: Seq<char>| #[trigger]
        index.contains_key(k) ==> index[k] < records.len() && records[index[k] as int].secret == k
}

/// The map that files, under each secret that `index` knows, the record at
/// the place that `index` gives.
spec fn filed(records: Seq<UserView>, index: Map<Seq<char>, usize>) -> Records {
    Map::new(|k: Seq<char>| index.contains_key(k), |k: Seq<char>| records[index[k] as int])
}

/// Replacing a record by one with the same secret keeps the index right and
/// changes the map at that secret only.
proof fn lemma_update(records: Seq<UserView>, index: Map<Seq<char>, usize>, i: int, r: UserView)
    requires
        indexed(records, index),
        0 <= i < records.len(),
        r.secret == records[i].secret,
    ensures
        indexed(records.update(i, r), index),
        filed(records.update(i, r), index) == filed(records, index).insert(r.secret, r),
{
    let changed = records.update(i, r);
    assert forall|j: int| 0 <= j < changed.len() implies index.contains_key(
        #[trigger] changed[j].secret,
    ) && index[changed[j].secret] == j by {
        assert(changed[j].secret == records[j].secret);
    }
    assert forall|k: Seq<char>| #[trigger] index.contains_key(k) implies index[k] < changed.len()
        && changed[index[k] as int].secret == k by {
        assert(changed[index[k] as int].secret == records[index[k] as int].secret);
    }
    assert(index.contains_key(records[i].secret));
    assert(filed(changed, index) =~= filed(records, index).insert(r.secret, r));
}

/// Appending a record whose secret the index does not know, and telling the
/// index where it stands, keeps the index right and adds the record to the
/// map.
proof fn lemma_push(records: Seq<UserView>, index: Map<Seq<char>, usize>, r: UserView)
    requires
        indexed(records, index),
        !index.contains_key(r.secret),
        records.len() <= usize::MAX,
    ensures
        indexed(records.push(r), index.insert(r.secret, records.len() as usize)),
        filed(records.push(r), index.insert(r.secret, records.len() as usize)) == filed(
            records,
            index,
        ).insert(r.secret, r),
{
    let more = records.push(r);
    let wider = index.insert(r.secret, records.len() as usize);
    assert forall|j: int| 0 <= j < more.len() implies wider.contains_key(#[trigger] more[j].secret)
        && wider[more[j].secret] == j by {
        if j < records.len() {
            assert(more[j].secret == records[j].secret);
        }
    }
    assert forall|k: Seq<char>| #[trigger] wider.contains_key(k) implies wider[k] < more.len()
        && more[wider[k] as int].secret == k by {
        if k != r.secret {
            assert(index.contains_key(k));
            assert(more[index[k] as int].secret == records[index[k] as int].secret);
        }
    }
    assert(filed(more, wider) =~= filed(records, index).insert(r.secret, r));
}

/// Records that are rightly indexed list the map they make, one record for
/// each secret.
proof fn lemma_listing(records: Seq<UserView>, index: Map<Seq<char>, usize>)
    requires
        indexed(records, index),
    ensures
        is_listing_of(records, filed(records, index)),
        keyed_by_secret(filed(records, index)),
        filed(records, index).dom().finite(),
        filed(records, index).dom().len() == records.len(),
{
    let m = filed(records, index);
    let secrets = records.map_values(|r: UserView| r.secret);
    assert forall|k: Seq<char>| #[trigger] m.contains_key(k) implies exists|i: int|
        0 <= i < records.len() && #[trigger] records[i].secret == k by {
        assert(records[index[k] as int].secret == k);
    }
    assert forall|i: int, j: int| 0 <= i < secrets.len() && 0 <= j < secrets.len() && i
        != j implies secrets[i] != secrets[j] by {
        assert(secrets[i] == records[i].secret && secrets[j] == records[j].secret);
    }
    assert forall|k: Seq<char>| m.dom().contains(k) <==> secrets.to_set().contains(k) by {
        if m.dom().contains(k) {
            assert(secrets[index[k] as int] == k);
        }
        if secrets.to_set().contains(k) {
            let i = choose|i: int| 0 <= i < secrets.len() && secrets[i] == k;
            assert(records[i].secret == k);
        }
    }
    assert(m.dom() =~= secrets.to_set());
    secrets.unique_seq_to_set();
}

/// All participant records, at most one per secret.
pub struct Users {
    /// The records, in the order in which their secrets were first seen.
    list: Vec<User>,
    /// For each secret on file, where its record stands in `list`.
    index: StringHashMap<usize>,
}

impl View for Users {
    type V = Records;

    closed spec fn view(&self) -> Records {
        filed(self.list.deep_view(), self.index@)
    }
}

impl Users {
    /// The index knows every stored record by its secret, and nothing else;
    /// so no two stored records share a secret.
    pub closed spec fn wf(&self) -> bool {
        indexed(self.list.deep_view(), self.index@)
    }

    /// Every record of a store is filed under its own secret, and there are
    /// finitely many.
    pub proof fn lemma_keyed_by_secret(&self)
        requires
            self.wf(),
        ensures
            keyed_by_secret(self@),
            self@.dom().finite(),
    {
        lemma_listing(self.list.deep_view(), self.index@);
    }

    /// A store without records.
    pub fn new() -> (users: Users)
        ensures
            users.wf(),
            users@ == Records::empty(),
    {
        let users = Users { list: Vec::new(), index: StringHashMap::new() };
        assert(users@ =~= Records::empty());
        users
    }

    /// Sets the name of the participant `secret`, creating the record if this
    /// is the first time the secret is seen.
    pub fn update_name(&mut self, secret: String, name: String)
        requires
            old(self).wf(),
        ensures
            final(self).wf(),
            final(self)@ == with_name(old(self)@, secret@, name@),
    {
        let ghost before = self.list.deep_view();
        match self.position(&secret) {
            Some(i) => {
                self.list[i].name = Some(name);
                proof {
                    let r = self.list[i as int]@;
                    assert(self.list.deep_view() =~= before.update(i as int, r));
                    lemma_update(before, self.index@, i as int, r);
                }
            },
            None => {
                let at: usize = self.list.len();
                self.index.insert(secret.clone(), at);
                self.list.push(User { secret, name: Some(name), answers: Vec::new() });
                proof {
                    let r = self.list[at as int]@;
                    assert(r.answers =~= Seq::empty());
                    assert(self.list.deep_view() =~= before.push(r));
                    lemma_push(before, old(self).index@, r);
                }
            },
        }
    }

    /// Records that the participant `secret` answered question `question`
    /// with `selected`, creating the record if this is the first time the
    /// secret is seen.
    pub fn update_question(&mut self, secret: String, question: usize, selected: String)
        requires
            old(self).wf(),
            question < usize::MAX,
        ensures
            final(self).wf(),
            final(self)@ == with_answer(old(self)@, secret@, question as nat, selected@),
            old(self)@.contains_key(secret@) && question < old(self)@[secret@].answers.len()
                ==> final(self)@ == old(self)@.insert(
                secret@,
                UserView {
                    answers: old(self)@[secret@].answers.update(question as int, selected@),
                    ..old(self)@[secret@]
                },
            ),
    {
        let ghost before = self.list.deep_view();
        match self.position(&secret) {
            Some(i) => {
                self.list[i].update_selected(question, selected);
                proof {
                    let r = self.list[i as int]@;
                    assert(self.list.deep_view() =~= before.update(i as int, r));
                    lemma_update(before, self.index@, i as int, r);
                }
            },
            None => {
                let at: usize = self.list.len();
                self.index.insert(secret.clone(), at);
                self.list.push(User::new_with_selected(secret, question, selected));
                proof {
                    let r = self.list[at as int]@;
                    assert(self.list.deep_view() =~= before.push(r));
                    lemma_push(before, old(self).index@, r);
                }
            },
        }
    }

    /// A copy of every record, one per secret; later changes to the store do
    /// not show in it.
    pub fn get_results(&self) -> (results: Vec<User>)
        requires
            self.wf(),
        ensures
            is_listing_of(results.deep_view(), self@),
            self@.dom().finite(),
            results.len() == self@.dom().len(),
    {
        proof {
            lemma_listing(self.list.deep_view(), self.index@);
        }
        let results = self.list.clone();
        assert(results.deep_view() =~= self.list.deep_view());
        results
    }

    /// Where the record of `secret` is stored, if there is one.
    fn position(&self, secret: &String) -> (found: Option<usize>)
        ensures
            match found {
                Some(i) => self.index@.contains_key(secret@) && self.index@[secret@] == i,
                None => !self.index@.contains_key(secret@),
            },
    {
        match self.index.get(secret.as_str()) {
            Some(at) => Some(*at),
            None => None,
        }
    }
}

} // verus!
