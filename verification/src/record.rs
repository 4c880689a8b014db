//! One participant's record and the rule by which an answer is placed in it.

use vstd::prelude::*;

verus! {

/// A participant record as mathematical values.
pub struct UserView {
    pub secret: Seq<char>,
    pub name: Option<Seq<char>>,
    pub answers: Seq<Seq<char>>,
}

/// What a participant has sent so far. `answers` is indexed by question
/// position and has no gaps.
#[derive(Debug, PartialEq, Eq, PartialOrd, Ord)]
pub struct User {
    pub secret: String,
    pub name: Option<String>,
    pub answers: Vec<String>,
}

impl View for User {
    type V = UserView;

    open spec fn view(&self) -> UserView {
        UserView {
            secret: self.secret@,
            name: self.name.deep_view(),
            answers: self.answers.deep_view(),
        }
    }
}

impl DeepView for User {
    type V = UserView;

    open spec fn deep_view(&self) -> UserView {
        self@
    }
}

/// The text that stands at every position nobody has answered yet.
pub open spec fn empty_answer() -> Seq<char> {
    "empty"@
}

/// The answers once `value` is placed at `pos`: long enough to hold `pos`,
/// `value` at `pos`, every other old position as it was, and the filler at
/// each position that had to be created.
pub open spec fn place_answer(answers: Seq<Seq<char>>, pos: nat, value: Seq<char>) -> Seq<
    Seq<char>,
> {
    Seq::new(
        if pos < answers.len() {
            answers.len()
        } else {
            pos + 1
        },
        |i: int|
            if i == pos {
                value
            } else if i < answers.len() {
                answers[i]
            } else {
                empty_answer()
            },
    )
}

impl User {
    /// Places `sel` at position `pos`, growing the answers with the filler
    /// where they are too short.
    pub fn update_selected(&mut self, pos: usize, sel: String)
        requires
            pos < usize::MAX,
        ensures
            final(self)@ == (UserView {
                answers: place_answer(old(self)@.answers, pos as nat, sel@),
                ..old(self)@
            }),
            pos < old(self)@.answers.len() ==> final(self)@.answers == old(self)@.answers.update(
                pos as int,
                sel@,
            ),
    {
        if self.answers.len() <= pos {
            self.answers.resize(pos + 1, "empty".to_string());
        }
        self.answers[pos] = sel;
        proof {
            let before = old(self).answers@;
            let grown = place_answer(old(self)@.answers, pos as nat, sel@);
            assert forall|i: int| 0 <= i < grown.len() implies self@.answers[i] == grown[i] by {
                if i != pos && i < before.len() {
                    assert(before.subrange(0, before.len() as int)[i] == before[i]);
                }
            }
            assert(self@.answers =~= grown);
        }
    }

    /// A record without a name whose only answer is `sel` at position `pos`.
    pub fn new_with_selected(secret: String, pos: usize, sel: String) -> (u: User)
        requires
            pos < usize::MAX,
        ensures
            u@ == (UserView {
                secret: secret@,
                name: None,
                answers: place_answer(Seq::empty(), pos as nat, sel@),
            }),
    {
        let mut u = User { secret, name: None, answers: vec!["empty".to_string(); pos + 1] };
        u.answers[pos] = sel;
        assert(u@.answers =~= place_answer(Seq::empty(), pos as nat, sel@));
        u
    }
}

impl Clone for User {
    /// A copy with the same secret, name and answers.
    fn clone(&self) -> (copy: User)
        ensures
            copy@ == self@,
    {
        User { secret: self.secret.clone(), name: self.name.clone(), answers: self.answers.clone() }
    }
}

} // verus!
