//! Turning submitted form data into stored answers, and merging them into
//! the answers already stored.

use crate::models::{AnswersDB, UserResponse, UserResponseData};
use crate::strmap::{keys_sorted, lemma_prefix_map_step, seq_map, StrMap};
use vstd::prelude::*;

verus! {

broadcast use vstd::string::group_string_axioms;

/// The views of a list of texts.
pub open spec fn string_views(values: Seq<String>) -> Seq<Seq<char>> {
    Seq::new(values.len(), |i: int| values[i]@)
}

/// Submitted form data as a map from field name to submitted value.
pub open spec fn form_view(form_data: StrMap<String>) -> Map<Seq<char>, Seq<char>> {
    seq_map(form_data.keys(), string_views(form_data.values()))
}

/// The answer stored for a submitted value: its first character, beside the
/// correct letter that the index holds for the question, if it holds one.
pub open spec fn response_for(
    question_id: Seq<char>,
    value: Seq<char>,
    answers: Map<Seq<char>, Option<char>>,
) -> UserResponse {
    UserResponse {
        user_answer: value[0],
        correct_answer: if answers.contains_key(question_id) {
            answers[question_id]
        } else {
            None
        },
    }
}

/// The answers that a form submits: one for each field whose value is not
/// empty.
pub open spec fn responses_of(
    form: Map<Seq<char>, Seq<char>>,
    answers: Map<Seq<char>, Option<char>>,
) -> Map<Seq<char>, UserResponse> {
    Map::new(
        |k: Seq<char>| form.contains_key(k) && form[k].len() > 0,
        |k: Seq<char>| response_for(k, form[k], answers),
    )
}

/// The stored answers after a form has been merged in: what the form
/// submits replaces what was stored under the same question, the rest stays.
pub open spec fn merged(
    existing: Map<Seq<char>, UserResponse>,
    form: Map<Seq<char>, Seq<char>>,
    answers: Map<Seq<char>, Option<char>>,
) -> Map<Seq<char>, UserResponse> {
    existing.union_prefer_right(responses_of(form, answers))
}

/// The first character of a text, if it has one.
pub fn first_char(value: &str) -> (first: Option<char>)
    ensures
        first == if value@.len() > 0 {
            Some(value@[0])
        } else {
            None
        },
{
    let mut it = value.chars();
    it.next()
}

/// Makes the answers that a form submits: for each field with a value, the
/// first character of the value and the correct letter from the index.
pub fn responses_from_form_data(
    form_data: &StrMap<String>,
    questions_db: &AnswersDB,
) -> (responses: UserResponseData)
    ensures
        responses.map() == responses_of(form_view(*form_data), questions_db.map()),
{
    let mut responses: UserResponseData = StrMap::new();
    let n = form_data.len();
    let ghost keys = form_data.keys();
    let ghost values = string_views(form_data.values());
    let ghost answers = questions_db.map();
    let mut i: usize = 0;
    proof {
        assert(responses.map() =~= responses_of(seq_map(keys.take(0), values.take(0)), answers));
    }
    while i < n
        invariant
            i <= n,
            n == keys.len(),
            n == values.len(),
            keys == form_data.keys(),
            values == string_views(form_data.values()),
            answers == questions_db.map(),
            keys_sorted(keys),
            responses.map() == responses_of(
                seq_map(keys.take(i as int), values.take(i as int)),
                answers,
            ),
        decreases n - i,
    {
        let question_id = form_data.key_at(i);
        let value = form_data.value_at(i);
        let ghost before = seq_map(keys.take(i as int), values.take(i as int));
        proof {
            lemma_prefix_map_step(keys, values, i as int);
        }
        match first_char(value.as_str()) {
            Some(user_answer) => {
                let correct_answer = match questions_db.get(question_id.as_str()) {
                    Some(letter) => *letter,
                    None => None,
                };
                let ur = UserResponse { user_answer, correct_answer };
                assert(ur == response_for(question_id@, value@, answers));
                responses.insert(question_id.clone(), ur);
            },
            None => {
                assert(responses.map() =~= responses_of(
                    before.insert(question_id@, value@),
                    answers,
                ));
            },
        }
        i = i + 1;
    }
    proof {
        assert(keys.take(n as int) =~= keys);
        assert(values.take(n as int) =~= values);
    }
    responses
}

/// Joins newly made answers to the stored ones: a new answer replaces the
/// stored answer to the same question.
pub fn merge_responses(
    existing: UserResponseData,
    new_responses: &UserResponseData,
) -> (all: UserResponseData)
    ensures
        all.map() == existing.map().union_prefer_right(new_responses.map()),
{
    let mut all = existing;
    let m = new_responses.len();
    let ghost keys = new_responses.keys();
    let ghost values = new_responses.values();
    let mut j: usize = 0;
    proof {
        assert(seq_map(keys.take(0), values.take(0)) =~= Map::<Seq<char>, UserResponse>::empty());
        assert(all.map() =~= existing.map().union_prefer_right(
            seq_map(keys.take(0), values.take(0)),
        ));
    }
    while j < m
        invariant
            j <= m,
            m == keys.len(),
            m == values.len(),
            keys == new_responses.keys(),
            values == new_responses.values(),
            keys_sorted(keys),
            all.map() == existing.map().union_prefer_right(
                seq_map(keys.take(j as int), values.take(j as int)),
            ),
        decreases m - j,
    {
        let key = new_responses.key_at(j);
        let value = *new_responses.value_at(j);
        let ghost before = seq_map(keys.take(j as int), values.take(j as int));
        proof {
            lemma_prefix_map_step(keys, values, j as int);
        }
        all.insert(key.clone(), value);
        assert(all.map() =~= existing.map().union_prefer_right(before.insert(key@, value)));
        j = j + 1;
    }
    proof {
        assert(keys.take(m as int) =~= keys);
        assert(values.take(m as int) =~= values);
    }
    all
}

/// Merges a submitted form into the stored answers. A field with an empty
/// value changes nothing; any other field replaces the stored answer to its
/// question; answers to other questions stay as they are.
pub fn merge(
    existing: UserResponseData,
    form_data: &StrMap<String>,
    questions_db: &AnswersDB,
) -> (all: UserResponseData)
    ensures
        all.map() == merged(existing.map(), form_view(*form_data), questions_db.map()),
{
    let new_responses = responses_from_form_data(form_data, questions_db);
    merge_responses(existing, &new_responses)
}

} // verus!
