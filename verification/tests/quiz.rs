use giga_test::app_state::AppState;
use giga_test::loading::get_giga_test;
use giga_test::models::{
    AnswerChoice, AnswersDB, Question, RawQuestion, RawSection, RawTest, RawTestPart, Test,
    TestPart, UserResponse, UserResponseData,
};
use giga_test::page_state::{TestPartTally, TestStateMainPageElem};
use giga_test::pages::{About, ErrorPage, Index, Part};
use giga_test::part_view::{generate_answers, get_part_state, sorted_sections};
use giga_test::placement::PlaceBucket;
use giga_test::responses::{merge, merge_responses, responses_from_form_data};
use giga_test::scoring::{
    display_canceled_question, get_index_tests_state, get_index_totals, tally_test_part,
};
use giga_test::strmap::StrMap;

fn choice(answer: &str, correct: bool) -> AnswerChoice {
    AnswerChoice { answer: answer.to_string(), correct }
}

fn raw_question(question: &str, choices: Vec<AnswerChoice>, canceled: bool) -> RawQuestion {
    RawQuestion { question: question.to_string(), choices, canceled }
}

fn raw_section(introduction: &str, questions: Vec<RawQuestion>) -> RawSection {
    RawSection { introduction: introduction.to_string(), questions }
}

fn raw_part(introduction: &str, sections: Vec<(&str, RawSection)>) -> RawTestPart {
    let mut map = StrMap::new();
    for (key, section) in sections {
        map.insert(key.to_string(), section);
    }
    RawTestPart { introduction: introduction.to_string(), sections: map }
}

/// Part "1": five questions in two sections, two of them canceled, one
/// without a correct choice. Part "2": sections under the keys 10, 2 and x.
/// Part "7": a part that the table of magazine issues does not know.
fn sample_raw() -> RawTest {
    let part1 = raw_part(
        "first part",
        vec![
            (
                "1",
                raw_section(
                    "about consoles",
                    vec![
                        raw_question("q a", vec![choice("no", false), choice("yes", true)], false),
                        raw_question("q b", vec![choice("yes", true), choice("no", false)], true),
                        raw_question("q c", vec![choice("no", false), choice("nope", false)], false),
                    ],
                ),
            ),
            (
                "2",
                raw_section(
                    "about games",
                    vec![
                        raw_question(
                            "q d",
                            vec![choice("yes", true), choice("no", false), choice("never", false)],
                            false,
                        ),
                        raw_question("q e", vec![choice("no", false), choice("yes", true)], true),
                    ],
                ),
            ),
        ],
    );
    let one = |text: &str| raw_section(text, vec![raw_question(text, vec![choice("a", true)], false)]);
    let part2 = raw_part("second part", vec![("10", one("ten")), ("2", one("two")), ("x", one("ex"))]);
    let part7 = raw_part("seventh part", vec![("1", one("only"))]);
    let mut parts = StrMap::new();
    parts.insert("7".to_string(), part7);
    parts.insert("1".to_string(), part1);
    parts.insert("2".to_string(), part2);
    RawTest(parts)
}

fn sample_test() -> Test {
    Test::from(sample_raw())
}

fn form(fields: Vec<(&str, &str)>) -> StrMap<String> {
    let mut map = StrMap::new();
    for (key, value) in fields {
        map.insert(key.to_string(), value.to_string());
    }
    map
}

fn entries(responses: &UserResponseData) -> Vec<(String, UserResponse)> {
    let mut all = Vec::new();
    for i in 0..responses.len() {
        all.push((responses.key_at(i).clone(), *responses.value_at(i)));
    }
    all
}

fn question_ids(test: &Test) -> Vec<String> {
    let mut ids = Vec::new();
    let parts = test.iter();
    for i in 0..parts.len() {
        for question in parts.value_at(i).get_questions() {
            ids.push(question.id.clone());
        }
    }
    ids
}

fn sample_responses(test: &Test) -> UserResponseData {
    let db = test.get_correct_answers();
    responses_from_form_data(
        &form(vec![("q1_1_0", "B"), ("q1_1_2", "A"), ("q1_2_1", "B"), ("q2_2_0", "B")]),
        &db,
    )
}

#[test]
fn loading_synthesizes_question_ids() {
    let test = sample_test();
    assert_eq!(
        question_ids(&test),
        vec![
            "q1_1_0", "q1_1_1", "q1_1_2", "q1_2_0", "q1_2_1", "q2_10_0", "q2_2_0", "q2_x_0",
            "q7_1_0"
        ]
    );
}

#[test]
fn loading_numbers_questions_past_nine_in_decimal() {
    let mut questions = Vec::new();
    for i in 0..12 {
        questions.push(raw_question(&format!("question {}", i), vec![choice("a", true)], false));
    }
    let mut parts = StrMap::new();
    parts.insert("3".to_string(), raw_part("p", vec![("4", raw_section("s", questions))]));
    let test = Test::from(RawTest(parts));
    let ids = question_ids(&test);
    assert_eq!(ids.len(), 12);
    assert_eq!(ids[0], "q3_4_0");
    assert_eq!(ids[9], "q3_4_9");
    assert_eq!(ids[10], "q3_4_10");
    assert_eq!(ids[11], "q3_4_11");
}

#[test]
fn loading_letters_choices_by_position() {
    let test = sample_test();
    let part = test.get("1").unwrap();
    let questions = part.get_questions();
    let letters: Vec<char> = questions[3].choices.iter().map(|c| c.0).collect();
    assert_eq!(letters, vec!['A', 'B', 'C']);
    assert_eq!(questions[3].choices[0].1.answer, "yes");
    assert!(questions[3].choices[0].1.correct);
    assert_eq!(questions[3].choices[2].1.answer, "never");
    assert!(!questions[3].choices[2].1.correct);
    assert_eq!(questions[3].question, "q d");
    assert!(questions[1].canceled);
    assert!(!questions[0].canceled);
}

#[test]
fn loading_keeps_the_first_eight_choices() {
    let mut choices = Vec::new();
    for i in 0..10 {
        choices.push(choice(&format!("choice {}", i), i == 9));
    }
    let mut parts = StrMap::new();
    parts.insert(
        "1".to_string(),
        raw_part("p", vec![("1", raw_section("s", vec![raw_question("q", choices, false)]))]),
    );
    let test = Test::from(RawTest(parts));
    let part = test.get("1").unwrap();
    let questions = part.get_questions();
    let letters: Vec<char> = questions[0].choices.iter().map(|c| c.0).collect();
    assert_eq!(letters, vec!['A', 'B', 'C', 'D', 'E', 'F', 'G', 'H']);
    assert_eq!(questions[0].choices[7].1.answer, "choice 7");
    assert_eq!(questions[0].correct_answer(), None);
}

#[test]
fn loading_twice_gives_the_same_ids_and_letters() {
    let first = sample_test();
    let second = sample_test();
    assert_eq!(question_ids(&first), question_ids(&second));
    let a = first.iter();
    let b = second.iter();
    assert_eq!(a.len(), b.len());
    for i in 0..a.len() {
        assert_eq!(a.key_at(i), b.key_at(i));
        let qa = a.value_at(i).get_questions();
        let qb = b.value_at(i).get_questions();
        assert_eq!(qa.len(), qb.len());
        for j in 0..qa.len() {
            let la: Vec<char> = qa[j].choices.iter().map(|c| c.0).collect();
            let lb: Vec<char> = qb[j].choices.iter().map(|c| c.0).collect();
            assert_eq!(la, lb);
        }
    }
}

#[test]
fn loading_keeps_parts_in_id_order() {
    let test = sample_test();
    let parts = test.iter();
    assert_eq!(parts.len(), 3);
    assert_eq!(parts.key_at(0), "1");
    assert_eq!(parts.key_at(1), "2");
    assert_eq!(parts.key_at(2), "7");
    assert_eq!(parts.value_at(0).introduction, "first part");
    assert_eq!(parts.value_at(0).sections.value_at(1).introduction, "about games");
}

#[test]
fn unparsed_source_gives_the_empty_test() {
    let test = get_giga_test(None);
    assert_eq!(test.iter().len(), 0);
    assert!(test.get("1").is_none());
    assert!(test.get_correct_answers().is_empty());
}

#[test]
fn parsed_source_is_loaded() {
    let test = get_giga_test(Some(sample_raw()));
    assert_eq!(test.iter().len(), 3);
    assert_eq!(question_ids(&test), question_ids(&sample_test()));
}

#[test]
fn default_test_is_empty() {
    assert_eq!(Test::default().iter().len(), 0);
}

#[test]
fn unknown_part_is_not_found() {
    let test = sample_test();
    assert!(test.get("3").is_none());
    assert!(test.get("").is_none());
    assert_eq!(test.get("2").unwrap().introduction, "second part");
}

#[test]
fn correct_answers_index_holds_every_question() {
    let test = sample_test();
    let db: AnswersDB = test.get_correct_answers();
    assert_eq!(db.len(), 9);
    assert_eq!(db.get("q1_1_0"), Some(&Some('B')));
    assert_eq!(db.get("q1_1_1"), Some(&Some('A')));
    assert_eq!(db.get("q1_1_2"), Some(&None));
    assert_eq!(db.get("q1_2_0"), Some(&Some('A')));
    assert_eq!(db.get("q2_x_0"), Some(&Some('A')));
    assert_eq!(db.get("q9_9_9"), None);
}

#[test]
fn correct_answer_is_the_first_choice_marked() {
    let question = Question {
        id: "q".to_string(),
        question: "which".to_string(),
        choices: vec![
            ('A', choice("a", false)),
            ('B', choice("b", true)),
            ('C', choice("c", true)),
        ],
        canceled: false,
    };
    assert_eq!(question.correct_answer(), Some('B'));
}

#[test]
fn app_state_derives_the_index_from_the_test() {
    let state = AppState::new(sample_test());
    assert_eq!(state.questions_db.len(), 9);
    assert_eq!(state.questions_db.get("q1_1_0"), Some(&Some('B')));
    assert_eq!(state.giga_test.iter().len(), 3);
}

#[test]
fn form_data_becomes_responses() {
    let test = sample_test();
    let db = test.get_correct_answers();
    let responses = responses_from_form_data(
        &form(vec![("q1_1_0", "Bxyz"), ("q1_1_2", "A"), ("q1_2_0", ""), ("q9_9_9", "C")]),
        &db,
    );
    assert_eq!(
        entries(&responses),
        vec![
            ("q1_1_0".to_string(), UserResponse { user_answer: 'B', correct_answer: Some('B') }),
            ("q1_1_2".to_string(), UserResponse { user_answer: 'A', correct_answer: None }),
            ("q9_9_9".to_string(), UserResponse { user_answer: 'C', correct_answer: None }),
        ]
    );
}

#[test]
fn form_data_without_values_gives_no_responses() {
    let test = sample_test();
    let db = test.get_correct_answers();
    let responses = responses_from_form_data(&form(vec![("q1_1_0", ""), ("q1_1_1", "")]), &db);
    assert!(responses.is_empty());
}

#[test]
fn merging_the_same_form_twice_is_merging_it_once() {
    let test = sample_test();
    let db = test.get_correct_answers();
    let existing = responses_from_form_data(&form(vec![("q1_1_0", "A"), ("q1_2_0", "C")]), &db);
    let incoming = form(vec![("q1_1_0", "B"), ("q1_1_2", "B"), ("q2_2_0", "")]);
    let once = merge(existing, &incoming, &db);
    let twice = merge(once.clone(), &incoming, &db);
    assert_eq!(entries(&once), entries(&twice));
    assert_eq!(once.len(), 3);
}

#[test]
fn last_write_wins() {
    let test = sample_test();
    let db = test.get_correct_answers();
    let start: UserResponseData = StrMap::new();
    let first = merge(start, &form(vec![("q1_1_0", "B")]), &db);
    let second = merge(first, &form(vec![("q1_1_0", "A")]), &db);
    assert_eq!(
        entries(&second),
        vec![("q1_1_0".to_string(), UserResponse { user_answer: 'A', correct_answer: Some('B') })]
    );
}

#[test]
fn empty_value_leaves_the_stored_answer() {
    let test = sample_test();
    let db = test.get_correct_answers();
    let start: UserResponseData = StrMap::new();
    let stored = merge(start, &form(vec![("q1_1_0", "B")]), &db);
    let after = merge(stored.clone(), &form(vec![("q1_1_0", "")]), &db);
    assert_eq!(entries(&after), entries(&stored));
    assert_eq!(
        after.get("q1_1_0"),
        Some(&UserResponse { user_answer: 'B', correct_answer: Some('B') })
    );
}

#[test]
fn merge_keeps_answers_to_other_questions() {
    let mut existing: UserResponseData = StrMap::new();
    existing.insert("q1".to_string(), UserResponse { user_answer: 'A', correct_answer: Some('A') });
    existing.insert("q2".to_string(), UserResponse { user_answer: 'B', correct_answer: None });
    let mut new_responses: UserResponseData = StrMap::new();
    new_responses.insert("q2".to_string(), UserResponse { user_answer: 'C', correct_answer: Some('C') });
    new_responses.insert("q0".to_string(), UserResponse { user_answer: 'D', correct_answer: Some('A') });
    let all = merge_responses(existing.clone(), &new_responses);
    assert_eq!(
        entries(&all),
        vec![
            ("q0".to_string(), UserResponse { user_answer: 'D', correct_answer: Some('A') }),
            ("q1".to_string(), UserResponse { user_answer: 'A', correct_answer: Some('A') }),
            ("q2".to_string(), UserResponse { user_answer: 'C', correct_answer: Some('C') }),
        ]
    );
    assert_eq!(merge_responses(existing, &StrMap::new()).len(), 2);
}

#[test]
fn tally_leaves_canceled_questions_out() {
    let test = sample_test();
    let part = test.get("1").unwrap();
    let none: UserResponseData = StrMap::new();
    let tally = tally_test_part(part, &none, false);
    assert_eq!(tally.total_q, 3);
    assert_eq!(tally.answered_q, 0);
    assert_eq!(tally.answered_good_q, 0);
    assert_eq!(tally.answered_bad_q, 0);
}

#[test]
fn tally_counts_canceled_questions_when_asked() {
    let test = sample_test();
    let part = test.get("1").unwrap();
    let none: UserResponseData = StrMap::new();
    let tally = tally_test_part(part, &none, true);
    assert_eq!(tally.total_q, 5);
    assert_eq!(tally.answered_q, 0);
}

#[test]
fn tally_classifies_answers() {
    let test = sample_test();
    let responses = sample_responses(&test);
    let part = test.get("1").unwrap();
    assert_eq!(
        tally_test_part(part, &responses, false),
        TestPartTally { answered_q: 2, total_q: 3, answered_good_q: 1, answered_bad_q: 1 }
    );
    assert_eq!(
        tally_test_part(part, &responses, true),
        TestPartTally { answered_q: 3, total_q: 5, answered_good_q: 2, answered_bad_q: 1 }
    );
}

#[test]
fn answer_to_a_question_without_correct_choice_is_incorrect() {
    let test = sample_test();
    let db = test.get_correct_answers();
    let part = test.get("1").unwrap();
    for letter in ["A", "B", "Z"] {
        let responses = responses_from_form_data(&form(vec![("q1_1_2", letter)]), &db);
        let tally = tally_test_part(part, &responses, true);
        assert_eq!(tally.answered_good_q, 0);
        assert_eq!(tally.answered_bad_q, 1);
        assert_eq!(tally.answered_q, 1);
    }
}

#[test]
fn tally_new_keeps_its_arguments() {
    let tally = TestPartTally::new(4, 9, 3, 1);
    assert_eq!(tally.answered_q, 4);
    assert_eq!(tally.total_q, 9);
    assert_eq!(tally.answered_good_q, 3);
    assert_eq!(tally.answered_bad_q, 1);
}

#[test]
fn canceled_questions_are_displayed_only_when_counted() {
    let test = sample_test();
    let part = test.get("1").unwrap();
    let questions = part.get_questions();
    assert!(display_canceled_question(false, questions[0]));
    assert!(display_canceled_question(true, questions[0]));
    assert!(!display_canceled_question(false, questions[1]));
    assert!(display_canceled_question(true, questions[1]));
}

#[test]
fn index_line_carries_the_labels_of_the_part() {
    let tally = TestPartTally::new(2, 3, 1, 1);
    let expected = [
        ("1", "37", "wrzesień 2000"),
        ("2", "38", "październik 2000"),
        ("3", "39", "listopad 2000"),
        ("4", "40", "grudzień 2000"),
        ("5", "41", "styczeń 2001"),
        ("6", "42", "luty 2001"),
    ];
    for (id, pe_id, pe_date) in expected {
        let elem = TestStateMainPageElem::from(id, tally);
        assert_eq!(elem.test_id, id);
        assert_eq!(elem.pe_id, pe_id);
        assert_eq!(elem.pe_date, pe_date);
        assert_eq!(elem.answered_q, 2);
        assert_eq!(elem.total_q, 3);
        assert_eq!(elem.answered_good_q, 1);
        assert_eq!(elem.answered_bad_q, 1);
    }
}

#[test]
fn index_line_of_an_unknown_part_carries_placeholders() {
    for id in ["7", "0", "", "11", "one"] {
        let elem = TestStateMainPageElem::from(id, TestPartTally::new(0, 0, 0, 0));
        assert_eq!(elem.test_id, id);
        assert_eq!(elem.pe_id, "none");
        assert_eq!(elem.pe_date, "none");
    }
}

#[test]
fn index_shows_the_tally_of_each_part() {
    let test = sample_test();
    let responses = sample_responses(&test);
    for count_canceled in [false, true] {
        let state = get_index_tests_state(&test, &responses, count_canceled);
        let parts = test.iter();
        assert_eq!(state.len(), parts.len());
        for i in 0..parts.len() {
            let tally = tally_test_part(parts.value_at(i), &responses, count_canceled);
            assert_eq!(&state[i].test_id, parts.key_at(i));
            assert_eq!(state[i].answered_good_q, tally.answered_good_q);
            assert_eq!(state[i].total_q, tally.total_q);
            assert_eq!(state[i].answered_bad_q, tally.answered_bad_q);
            assert_eq!(state[i].answered_q, tally.answered_q);
        }
    }
}

#[test]
fn index_lists_parts_in_id_order() {
    let test = sample_test();
    let responses = sample_responses(&test);
    let state = get_index_tests_state(&test, &responses, false);
    let ids: Vec<&str> = state.iter().map(|e| e.test_id.as_str()).collect();
    assert_eq!(ids, vec!["1", "2", "7"]);
    assert_eq!(state[0].pe_id, "37");
    assert_eq!(state[1].pe_date, "październik 2000");
    assert_eq!(state[2].pe_id, "none");
    assert_eq!(state[1].total_q, 3);
    assert_eq!(state[1].answered_good_q, 0);
    assert_eq!(state[1].answered_bad_q, 1);
}

#[test]
fn index_totals_sum_the_parts() {
    let test = sample_test();
    let responses = sample_responses(&test);
    let state = get_index_tests_state(&test, &responses, true);
    let totals = get_index_totals(&state);
    assert_eq!(totals.answered_good_q, 2);
    assert_eq!(totals.answered_bad_q, 2);
    assert_eq!(totals.answered_total_q, 4);
    assert_eq!(totals.total_q, 9);
    assert_eq!(totals.place, 233);
    assert_eq!(totals.place_bucket, PlaceBucket::Loser);
}

#[test]
fn index_totals_of_nothing() {
    let totals = get_index_totals(&[]);
    assert_eq!(totals.answered_good_q, 0);
    assert_eq!(totals.answered_bad_q, 0);
    assert_eq!(totals.answered_total_q, 0);
    assert_eq!(totals.total_q, 0);
    assert_eq!(totals.place, 233);
    assert_eq!(totals.place_bucket, PlaceBucket::Loser);
}

#[test]
fn index_totals_place_the_correct_answers() {
    let line = |id: &str, good: usize, bad: usize, total: usize| {
        TestStateMainPageElem::from(id, TestPartTally::new(good + bad, total, good, bad))
    };
    let state = vec![line("1", 100, 3, 110), line("2", 90, 10, 100), line("3", 80, 0, 90)];
    let totals = get_index_totals(&state);
    assert_eq!(totals.answered_good_q, 270);
    assert_eq!(totals.answered_bad_q, 13);
    assert_eq!(totals.answered_total_q, 283);
    assert_eq!(totals.total_q, 300);
    assert_eq!(totals.place, 4);
    assert_eq!(totals.place_bucket, PlaceBucket::ConsolationPrize);
}

#[test]
fn highlight_classes() {
    let right = choice("right", true);
    let wrong = choice("wrong", false);
    let cases = [
        (&right, Some('A'), true, "correct"),
        (&right, Some('B'), false, "correct"),
        (&right, None, false, "correct"),
        (&wrong, Some('A'), true, "incorrect"),
        (&wrong, Some('B'), false, ""),
        (&wrong, None, false, ""),
    ];
    for (answer, user_answer, selected, class) in cases {
        let (letter, state) = generate_answers("q1_1_0", 'A', answer, user_answer);
        assert_eq!(letter, 'A');
        assert_eq!(state.user_selected, selected);
        assert_eq!(state.choice_class, class);
        assert_eq!(state.correct, answer.correct);
        assert_eq!(state.answer, answer.answer);
        assert_eq!(state.id, "q1_1_0_A");
    }
}

#[test]
fn part_page_shows_questions_and_choices() {
    let test = sample_test();
    let responses = sample_responses(&test);
    let part = test.get("1").unwrap();
    let state = get_part_state(part, &responses, false);
    assert_eq!(state.introduction, "first part");
    assert_eq!(state.sections.len(), 2);
    assert_eq!(state.sections[0].introduction, "about consoles");
    assert_eq!(state.sections[1].introduction, "about games");
    let ids: Vec<&str> = state.sections[0].questions.iter().map(|q| q.id.as_str()).collect();
    assert_eq!(ids, vec!["q1_1_0", "q1_1_2"]);
    let ids: Vec<&str> = state.sections[1].questions.iter().map(|q| q.id.as_str()).collect();
    assert_eq!(ids, vec!["q1_2_0"]);
    let first = &state.sections[0].questions[0];
    assert_eq!(first.question, "q a");
    assert_eq!(first.user_answer, Some('B'));
    assert!(!first.canceled);
    assert_eq!(first.choices.len(), 2);
    assert_eq!(first.choices[0].0, 'A');
    assert_eq!(first.choices[0].1.id, "q1_1_0_A");
    assert_eq!(first.choices[0].1.choice_class, "");
    assert!(!first.choices[0].1.user_selected);
    assert_eq!(first.choices[1].0, 'B');
    assert_eq!(first.choices[1].1.id, "q1_1_0_B");
    assert_eq!(first.choices[1].1.choice_class, "correct");
    assert!(first.choices[1].1.user_selected);
    let third = &state.sections[0].questions[1];
    assert_eq!(third.user_answer, Some('A'));
    assert_eq!(third.choices[0].1.choice_class, "incorrect");
    assert_eq!(third.choices[1].1.choice_class, "");
    let unanswered = &state.sections[1].questions[0];
    assert_eq!(unanswered.user_answer, None);
    assert_eq!(unanswered.choices[0].1.choice_class, "correct");
    assert_eq!(unanswered.choices[1].1.choice_class, "");
    assert_eq!(unanswered.choices[2].1.answer, "never");
}

#[test]
fn part_page_shows_canceled_questions_when_counted() {
    let test = sample_test();
    let responses = sample_responses(&test);
    let part = test.get("1").unwrap();
    let state = get_part_state(part, &responses, true);
    let ids: Vec<&str> = state.sections[0].questions.iter().map(|q| q.id.as_str()).collect();
    assert_eq!(ids, vec!["q1_1_0", "q1_1_1", "q1_1_2"]);
    let ids: Vec<&str> = state.sections[1].questions.iter().map(|q| q.id.as_str()).collect();
    assert_eq!(ids, vec!["q1_2_0", "q1_2_1"]);
    assert!(state.sections[0].questions[1].canceled);
    assert_eq!(state.sections[1].questions[1].user_answer, Some('B'));
    assert_eq!(state.sections[1].questions[1].choices[1].1.choice_class, "correct");
}

#[test]
fn part_page_orders_sections_by_number() {
    let test = sample_test();
    let part = test.get("2").unwrap();
    let none: UserResponseData = StrMap::new();
    let state = get_part_state(part, &none, true);
    let order: Vec<&str> = state.sections.iter().map(|s| s.introduction.as_str()).collect();
    assert_eq!(order, vec!["two", "ten", "ex"]);
    assert_eq!(sorted_sections(part), vec![(2, 1), (10, 0), (i32::MAX, 2)]);
}

#[test]
fn sections_with_the_same_number_keep_key_order() {
    let one = |text: &str| raw_section(text, vec![]);
    let part = TestPart::from_raw(
        &raw_part(
            "p",
            vec![
                ("b", one("b")),
                ("3", one("3")),
                ("+3", one("+3")),
                ("a", one("a")),
                ("-1", one("-1")),
                ("03", one("03")),
                ("12", one("12")),
            ],
        ),
        "1",
    );
    let keys: Vec<&str> = (0..part.sections.len()).map(|i| part.sections.key_at(i).as_str()).collect();
    assert_eq!(keys, vec!["+3", "-1", "03", "12", "3", "a", "b"]);
    let none: UserResponseData = StrMap::new();
    let state = get_part_state(&part, &none, false);
    let order: Vec<&str> = state.sections.iter().map(|s| s.introduction.as_str()).collect();
    assert_eq!(order, vec!["-1", "+3", "03", "3", "12", "a", "b"]);
}

#[test]
fn part_page_of_an_empty_part() {
    let part = TestPart::from_raw(&raw_part("nothing", vec![]), "1");
    let none: UserResponseData = StrMap::new();
    let state = get_part_state(&part, &none, false);
    assert_eq!(state.introduction, "nothing");
    assert!(state.sections.is_empty());
    assert_eq!(tally_test_part(&part, &none, true), TestPartTally::new(0, 0, 0, 0));
}

#[test]
fn pages_keep_what_they_are_made_from() {
    let test = sample_test();
    let responses = sample_responses(&test);
    let state = get_index_tests_state(&test, &responses, true);
    let totals = get_index_totals(&state);
    let index = Index::new(&state, &totals, true, false);
    assert_eq!(index.tests_state.len(), 3);
    assert_eq!(index.totals.total_q, 9);
    assert!(index.count_canceled);
    assert!(!index.giga_test_finished);
    let part_state = get_part_state(test.get("1").unwrap(), &responses, true);
    let part = Part::new(&part_state, true);
    assert_eq!(part.part_state.introduction, "first part");
    assert!(part.giga_test_finished);
    let error = ErrorPage::new("not found".to_string());
    assert_eq!(error.description, "not found");
    let _about: About = About::new();
}
