use survey_backend::record::User;
use survey_backend::store::Users;

fn s(v: &str) -> String {
    v.to_string()
}

fn answers(items: &[&str]) -> Vec<String> {
    items.iter().map(|a| a.to_string()).collect()
}

fn sorted(users: &Users) -> Vec<User> {
    let mut all = users.get_results();
    all.sort();
    all
}

#[test]
fn test_add_name() {
    let mut users = Users::new();
    let mut user1 = User { secret: s("1234"), name: Some(s("foo")), answers: vec![] };
    users.update_name(user1.secret.clone(), user1.name.clone().unwrap());
    assert_eq!(vec![user1.clone()], users.get_results());
    user1.name = Some(s("bar"));
    users.update_name(user1.secret.clone(), user1.name.clone().unwrap());
    assert_eq!(vec![user1.clone()], users.get_results());

    let user2 = User { secret: s("1235"), name: Some(s("foobar")), answers: vec![] };
    users.update_name(user2.secret.clone(), user2.name.clone().unwrap());
    let mut all = users.get_results();
    all.sort();
    assert_eq!(vec![user1, user2], all);
}

#[test]
fn test_update_question() {
    let mut users = Users::new();
    let mut user = User {
        secret: s("1234"),
        name: Some(s("foo")),
        answers: answers(&["empty", "correct"]),
    };
    users.update_name(user.secret.clone(), user.name.clone().unwrap());
    users.update_question(user.secret.clone(), 1, user.answers[1].clone());
    assert_eq!(vec![user.clone()], users.get_results());
    user.answers.insert(2, s("correct"));
    users.update_question(user.secret.clone(), 2, user.answers[2].clone());
    assert_eq!(vec![user], users.get_results());
}

#[test]
fn fresh_store_lists_nothing() {
    let users = Users::new();
    assert_eq!(users.get_results(), Vec::<User>::new());
}

#[test]
fn name_then_answers_for_one_secret() {
    let mut users = Users::new();
    users.update_name(s("1234"), s("foo"));
    assert_eq!(
        users.get_results(),
        vec![User { secret: s("1234"), name: Some(s("foo")), answers: vec![] }]
    );
    users.update_question(s("1234"), 1, s("correct"));
    assert_eq!(
        users.get_results(),
        vec![User { secret: s("1234"), name: Some(s("foo")), answers: answers(&["empty", "correct"]) }]
    );
    users.update_question(s("1234"), 2, s("correct"));
    assert_eq!(
        users.get_results(),
        vec![User {
            secret: s("1234"),
            name: Some(s("foo")),
            answers: answers(&["empty", "correct", "correct"]),
        }]
    );
}

#[test]
fn two_secrets_give_two_records() {
    let mut users = Users::new();
    users.update_name(s("1235"), s("b"));
    users.update_name(s("1234"), s("a"));
    assert_eq!(
        sorted(&users),
        vec![
            User { secret: s("1234"), name: Some(s("a")), answers: vec![] },
            User { secret: s("1235"), name: Some(s("b")), answers: vec![] },
        ]
    );
}

#[test]
fn one_record_per_secret_after_many_calls() {
    let mut users = Users::new();
    users.update_question(s("c"), 0, s("x"));
    users.update_name(s("a"), s("anna"));
    users.update_question(s("b"), 2, s("y"));
    users.update_name(s("c"), s("carl"));
    users.update_question(s("a"), 1, s("z"));
    users.update_name(s("a"), s("anne"));
    users.update_question(s("b"), 0, s("w"));
    users.update_name(s("c"), s("carla"));
    assert_eq!(
        sorted(&users),
        vec![
            User { secret: s("a"), name: Some(s("anne")), answers: answers(&["empty", "z"]) },
            User { secret: s("b"), name: None, answers: answers(&["w", "empty", "y"]) },
            User { secret: s("c"), name: Some(s("carla")), answers: answers(&["x"]) },
        ]
    );
}

#[test]
fn answer_for_an_unseen_secret_creates_a_nameless_record() {
    let mut users = Users::new();
    users.update_question(s("k"), 3, s("v"));
    assert_eq!(
        users.get_results(),
        vec![User { secret: s("k"), name: None, answers: answers(&["empty", "empty", "empty", "v"]) }]
    );
}

#[test]
fn answer_at_position_zero_for_an_unseen_secret() {
    let mut users = Users::new();
    users.update_question(s("k"), 0, s("v"));
    assert_eq!(
        users.get_results(),
        vec![User { secret: s("k"), name: None, answers: answers(&["v"]) }]
    );
}

#[test]
fn answer_is_at_its_position_right_after_the_call() {
    let mut users = Users::new();
    users.update_name(s("k"), s("n"));
    users.update_question(s("k"), 1, s("one"));
    users.update_question(s("k"), 4, s("four"));
    let all = users.get_results();
    assert_eq!(all.len(), 1);
    assert_eq!(all[0].answers[4], "four");
    assert_eq!(all[0].answers, answers(&["empty", "one", "empty", "empty", "four"]));
}

#[test]
fn answer_in_range_overwrites_only_its_index() {
    let mut users = Users::new();
    users.update_name(s("k"), s("n"));
    users.update_name(s("other"), s("o"));
    users.update_question(s("other"), 1, s("keep"));
    users.update_question(s("k"), 3, s("d"));
    users.update_question(s("k"), 1, s("b"));
    users.update_question(s("k"), 1, s("B"));
    assert_eq!(
        sorted(&users),
        vec![
            User { secret: s("k"), name: Some(s("n")), answers: answers(&["empty", "B", "empty", "d"]) },
            User { secret: s("other"), name: Some(s("o")), answers: answers(&["empty", "keep"]) },
        ]
    );
}

#[test]
fn name_after_answers_keeps_the_answers() {
    let mut users = Users::new();
    users.update_question(s("k"), 1, s("v"));
    users.update_name(s("k"), s("late"));
    assert_eq!(
        users.get_results(),
        vec![User { secret: s("k"), name: Some(s("late")), answers: answers(&["empty", "v"]) }]
    );
}

#[test]
fn empty_texts_are_taken_as_they_are() {
    let mut users = Users::new();
    users.update_name(s(""), s(""));
    users.update_question(s(""), 0, s(""));
    assert_eq!(
        users.get_results(),
        vec![User { secret: s(""), name: Some(s("")), answers: answers(&[""]) }]
    );
}

#[test]
fn secrets_differ_by_exact_text() {
    let mut users = Users::new();
    users.update_name(s("abc"), s("1"));
    users.update_name(s("ABC"), s("2"));
    users.update_name(s("abc "), s("3"));
    assert_eq!(users.get_results().len(), 3);
}

#[test]
fn results_are_a_snapshot() {
    let mut users = Users::new();
    users.update_name(s("k"), s("n"));
    let mut before = users.get_results();
    users.update_question(s("k"), 0, s("v"));
    users.update_name(s("j"), s("m"));
    assert_eq!(before, vec![User { secret: s("k"), name: Some(s("n")), answers: vec![] }]);
    before[0].name = None;
    before.clear();
    assert_eq!(
        sorted(&users),
        vec![
            User { secret: s("j"), name: Some(s("m")), answers: vec![] },
            User { secret: s("k"), name: Some(s("n")), answers: answers(&["v"]) },
        ]
    );
}

#[test]
fn last_answer_wins_and_unanswered_positions_hold_the_filler() {
    let mut users = Users::new();
    users.update_question(s("k"), 2, s("a"));
    users.update_question(s("k"), 0, s("b"));
    users.update_question(s("k"), 2, s("c"));
    users.update_question(s("k"), 4, s("d"));
    assert_eq!(
        users.get_results(),
        vec![User { secret: s("k"), name: None, answers: answers(&["b", "empty", "c", "empty", "d"]) }]
    );
}

#[test]
fn a_record_follows_its_own_calls_however_others_interleave() {
    let mut alone = Users::new();
    alone.update_question(s("k"), 1, s("x"));
    alone.update_name(s("k"), s("n"));
    alone.update_question(s("k"), 0, s("y"));

    let mut mixed = Users::new();
    mixed.update_name(s("j"), s("m"));
    mixed.update_question(s("k"), 1, s("x"));
    mixed.update_question(s("j"), 5, s("z"));
    mixed.update_question(s("i"), 0, s("w"));
    mixed.update_name(s("k"), s("n"));
    mixed.update_name(s("j"), s("mm"));
    mixed.update_question(s("k"), 0, s("y"));
    mixed.update_question(s("i"), 0, s("ww"));

    let of_k: Vec<User> = mixed.get_results().into_iter().filter(|u| u.secret == "k").collect();
    assert_eq!(of_k, alone.get_results());
    assert_eq!(of_k, vec![User { secret: s("k"), name: Some(s("n")), answers: answers(&["y", "x"]) }]);
    assert_eq!(mixed.get_results().len(), 3);
}
