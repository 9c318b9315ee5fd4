//! The question bank: its raw form, its loaded form with synthesized
//! question ids and choice letters, and the index of correct answers.

use crate::strmap::{keys_sorted, lemma_entered_at_end, StrMap};
use crate::text::{decimal, push_decimal};
use vstd::prelude::*;

verus! {

/// One stored answer: what the user chose, and what was correct when it was
/// stored.
#[derive(Clone, Copy, Debug, PartialEq, Eq, Structural)]
pub struct UserResponse {
    pub user_answer: char,
    pub correct_answer: Option<char>,
}

/// The stored answers of one user, by question id.
pub type UserResponseData = StrMap<UserResponse>;

/// The correct choice letter of each question, by question id; `None` where
/// no choice of the question is marked correct.
pub type AnswersDB = StrMap<Option<char>>;

/// One choice of a question.
#[derive(Clone, Debug)]
pub struct AnswerChoice {
    pub answer: String,
    pub correct: bool,
}

/// What a choice holds: its text and whether it is marked correct.
pub struct AnswerChoiceView {
    pub answer: Seq<char>,
    pub correct: bool,
}

impl View for AnswerChoice {
    type V = AnswerChoiceView;

    open spec fn view(&self) -> AnswerChoiceView {
        AnswerChoiceView { answer: self.answer@, correct: self.correct }
    }
}

/// The views of a list of choices.
pub open spec fn choices_view(choices: Seq<AnswerChoice>) -> Seq<AnswerChoiceView> {
    Seq::new(choices.len(), |i: int| choices[i]@)
}

/// The views of a list of lettered choices.
pub open spec fn lettered_view(choices: Seq<(char, AnswerChoice)>) -> Seq<
    (char, AnswerChoiceView),
> {
    Seq::new(choices.len(), |i: int| (choices[i].0, choices[i].1@))
}

/// A question with its id and its choices in letter order.
#[derive(Clone, Debug)]
pub struct Question {
    pub id: String,
    pub question: String,
    pub choices: Vec<(char, AnswerChoice)>,
    pub canceled: bool,
}

/// What a question holds: id, text, lettered choices and canceled flag.
pub struct QuestionView {
    pub id: Seq<char>,
    pub question: Seq<char>,
    pub choices: Seq<(char, AnswerChoiceView)>,
    pub canceled: bool,
}

impl View for Question {
    type V = QuestionView;

    open spec fn view(&self) -> QuestionView {
        QuestionView {
            id: self.id@,
            question: self.question@,
            choices: lettered_view(self.choices@),
            canceled: self.canceled,
        }
    }
}

/// The views of a list of questions.
pub open spec fn questions_view(questions: Seq<Question>) -> Seq<QuestionView> {
    Seq::new(questions.len(), |i: int| questions[i]@)
}

/// The views of a list of borrowed questions.
pub open spec fn question_refs_view(questions: Seq<&Question>) -> Seq<QuestionView> {
    Seq::new(questions.len(), |i: int| (*questions[i])@)
}

/// A run of questions under one introduction.
#[derive(Clone, Debug)]
pub struct Section {
    pub introduction: String,
    pub questions: Vec<Question>,
}

/// What a section holds: its introduction and its questions in order.
pub struct SectionView {
    pub introduction: Seq<char>,
    pub questions: Seq<QuestionView>,
}

impl View for Section {
    type V = SectionView;

    open spec fn view(&self) -> SectionView {
        SectionView {
            introduction: self.introduction@,
            questions: questions_view(self.questions@),
        }
    }
}

/// One part of the test: its sections by section key, in key order.
#[derive(Clone, Debug)]
pub struct TestPart {
    pub introduction: String,
    pub sections: StrMap<Section>,
}

/// What a part holds: its introduction and its sections in key order.
pub struct TestPartView {
    pub introduction: Seq<char>,
    pub sections: Seq<(Seq<char>, SectionView)>,
}

impl View for TestPart {
    type V = TestPartView;

    open spec fn view(&self) -> TestPartView {
        TestPartView { introduction: self.introduction@, sections: self.sections.entries() }
    }
}

/// The whole test: its parts by part id, in id order.
#[derive(Clone, Debug)]
pub struct Test(pub StrMap<TestPart>);

impl View for Test {
    type V = Seq<(Seq<char>, TestPartView)>;

    open spec fn view(&self) -> Seq<(Seq<char>, TestPartView)> {
        self.0.entries()
    }
}

/// A question as the source gives it: no id, choices without letters.
#[derive(Clone, Debug)]
pub struct RawQuestion {
    pub question: String,
    pub choices: Vec<AnswerChoice>,
    pub canceled: bool,
}

/// What a raw question holds.
pub struct RawQuestionView {
    pub question: Seq<char>,
    pub choices: Seq<AnswerChoiceView>,
    pub canceled: bool,
}

impl View for RawQuestion {
    type V = RawQuestionView;

    open spec fn view(&self) -> RawQuestionView {
        RawQuestionView {
            question: self.question@,
            choices: choices_view(self.choices@),
            canceled: self.canceled,
        }
    }
}

/// The views of a list of raw questions.
pub open spec fn raw_questions_view(questions: Seq<RawQuestion>) -> Seq<RawQuestionView> {
    Seq::new(questions.len(), |i: int| questions[i]@)
}

/// A section as the source gives it.
#[derive(Clone, Debug)]
pub struct RawSection {
    pub introduction: String,
    pub questions: Vec<RawQuestion>,
}

/// What a raw section holds.
pub struct RawSectionView {
    pub introduction: Seq<char>,
    pub questions: Seq<RawQuestionView>,
}

impl View for RawSection {
    type V = RawSectionView;

    open spec fn view(&self) -> RawSectionView {
        RawSectionView {
            introduction: self.introduction@,
            questions: raw_questions_view(self.questions@),
        }
    }
}

/// A part as the source gives it.
#[derive(Clone, Debug)]
pub struct RawTestPart {
    pub introduction: String,
    pub sections: StrMap<RawSection>,
}

/// What a raw part holds: its introduction and its sections in key order.
pub struct RawTestPartView {
    pub introduction: Seq<char>,
    pub sections: Seq<(Seq<char>, RawSectionView)>,
}

impl View for RawTestPart {
    type V = RawTestPartView;

    open spec fn view(&self) -> RawTestPartView {
        RawTestPartView { introduction: self.introduction@, sections: self.sections.entries() }
    }
}

/// The test as the source gives it: raw parts by part id.
#[derive(Clone, Debug)]
pub struct RawTest(pub StrMap<RawTestPart>);

impl View for RawTest {
    type V = Seq<(Seq<char>, RawTestPartView)>;

    open spec fn view(&self) -> Seq<(Seq<char>, RawTestPartView)> {
        self.0.entries()
    }
}

/// The value of `canceled` for a question whose source does not say.
pub fn ret_false() -> (canceled: bool)
    ensures
        !canceled,
{
    false
}

/// No question shows more choices than there are letters.
pub const MAX_CHOICES: usize = 8;

/// The letters given to the choices of a question, by position.
pub const QUESTION_IDS: [char; 8] = ['A', 'B', 'C', 'D', 'E', 'F', 'G', 'H'];

/// The letter of the choice at `position`.
pub open spec fn choice_letter(position: int) -> char {
    QUESTION_IDS@[position]
}

/// The choices that a loaded question shows: the first eight of the source,
/// each under the letter of its position.
pub open spec fn lettered_choices(choices: Seq<AnswerChoiceView>) -> Seq<
    (char, AnswerChoiceView),
> {
    Seq::new(
        if choices.len() <= MAX_CHOICES {
            choices.len()
        } else {
            MAX_CHOICES as nat
        },
        |i: int| (choice_letter(i), choices[i]),
    )
}

/// The id of the question at `index` of section `section_id` of part
/// `part_id`: the letter q, then the three joined by underscores.
pub open spec fn question_id(part_id: Seq<char>, section_id: Seq<char>, index: nat) -> Seq<char> {
    seq!['q'] + part_id + seq!['_'] + section_id + seq!['_'] + decimal(index)
}

/// The loaded form of one raw question.
pub open spec fn load_question(
    raw: RawQuestionView,
    part_id: Seq<char>,
    section_id: Seq<char>,
    index: nat,
) -> QuestionView {
    QuestionView {
        id: question_id(part_id, section_id, index),
        question: raw.question,
        choices: lettered_choices(raw.choices),
        canceled: raw.canceled,
    }
}

/// The loaded form of one raw section: its questions in source order.
pub open spec fn load_section(
    raw: RawSectionView,
    part_id: Seq<char>,
    section_id: Seq<char>,
) -> SectionView {
    SectionView {
        introduction: raw.introduction,
        questions: Seq::new(
            raw.questions.len(),
            |i: int| load_question(raw.questions[i], part_id, section_id, i as nat),
        ),
    }
}

/// The loaded form of one raw part: its sections under their own keys.
pub open spec fn load_part(raw: RawTestPartView, part_id: Seq<char>) -> TestPartView {
    TestPartView {
        introduction: raw.introduction,
        sections: Seq::new(
            raw.sections.len(),
            |i: int|
                (
                    raw.sections[i].0,
                    load_section(raw.sections[i].1, part_id, raw.sections[i].0),
                ),
        ),
    }
}

/// The loaded form of a raw test: its parts under their own ids.
pub open spec fn load_test(raw: Seq<(Seq<char>, RawTestPartView)>) -> Seq<
    (Seq<char>, TestPartView),
> {
    Seq::new(raw.len(), |i: int| (raw[i].0, load_part(raw[i].1, raw[i].0)))
}

fn make_question_id(part_id: &str, section_id: &str, index: usize) -> (id: String)
    ensures
        id@ == question_id(part_id@, section_id@, index as nat),
{
    let mut id = String::new();
    id.push('q');
    id.append(part_id);
    id.push('_');
    id.append(section_id);
    id.push('_');
    push_decimal(&mut id, index);
    id
}

fn letter_choices(choices: &Vec<AnswerChoice>) -> (lettered: Vec<(char, AnswerChoice)>)
    ensures
        lettered_view(lettered@) == lettered_choices(choices_view(choices@)),
{
    let mut lettered: Vec<(char, AnswerChoice)> = Vec::new();
    let mut i: usize = 0;
    while i < choices.len() && i < MAX_CHOICES
        invariant
            i <= choices@.len(),
            i <= MAX_CHOICES,
            lettered@.len() == i,
            forall|j: int|
                0 <= j < i ==> lettered@[j].0 == choice_letter(j) && (#[trigger] lettered@[j]).1@
                    == choices@[j]@,
        decreases choices@.len() - i,
    {
        let choice = AnswerChoice {
            answer: choices[i].answer.clone(),
            correct: choices[i].correct,
        };
        lettered.push((QUESTION_IDS[i], choice));
        i = i + 1;
    }
    lettered
}

impl Section {
    /// Loads a raw section: each question gets its id from the part, the
    /// section and its position, and its choices get their letters.
    pub fn from_raw(value: &RawSection, part_id: &str, section_id: &str) -> (section: Section)
        ensures
            section@ == load_section(value@, part_id@, section_id@),
    {
        let mut new_questions: Vec<Question> = Vec::new();
        let mut i: usize = 0;
        while i < value.questions.len()
            invariant
                i <= value.questions@.len(),
                new_questions@.len() == i,
                forall|j: int|
                    0 <= j < i ==> (#[trigger] new_questions@[j])@ == load_question(
                        value.questions@[j]@,
                        part_id@,
                        section_id@,
                        j as nat,
                    ),
            decreases value.questions@.len() - i,
        {
            let question = &value.questions[i];
            let loaded = Question {
                id: make_question_id(part_id, section_id, i),
                question: question.question.clone(),
                canceled: question.canceled,
                choices: letter_choices(&question.choices),
            };
            new_questions.push(loaded);
            i = i + 1;
        }
        let section = Section {
            introduction: value.introduction.clone(),
            questions: new_questions,
        };
        assert(section@.questions =~= load_section(value@, part_id@, section_id@).questions);
        section
    }
}

impl TestPart {
    /// Loads a raw part: each section is loaded under its own key.
    pub fn from_raw(value: &RawTestPart, part_id: &str) -> (part: TestPart)
        ensures
            part@ == load_part(value@, part_id@),
    {
        let mut new_sections: StrMap<Section> = StrMap::new();
        let n = value.sections.len();
        let mut i: usize = 0;
        while i < n
            invariant
                i <= n,
                n == value.sections.keys().len(),
                n == value.sections.values().len(),
                keys_sorted(value.sections.keys()),
                new_sections.keys() == value.sections.keys().take(i as int),
                new_sections.values().len() == i,
                forall|j: int|
                    0 <= j < i ==> (#[trigger] new_sections.values()[j])@ == load_section(
                        value.sections.values()[j]@,
                        part_id@,
                        value.sections.keys()[j],
                    ),
            decreases n - i,
        {
            let section_id = value.sections.key_at(i);
            let new_section = Section::from_raw(
                value.sections.value_at(i),
                part_id,
                section_id.as_str(),
            );
            proof {
                lemma_entered_at_end(
                    new_sections.keys(),
                    new_sections.values(),
                    section_id@,
                    new_section,
                );
            }
            new_sections.insert(section_id.clone(), new_section);
            i = i + 1;
        }
        let part = TestPart { introduction: value.introduction.clone(), sections: new_sections };
        proof {
            assert(part@.sections =~= load_part(value@, part_id@).sections);
        }
        part
    }
}

/// All questions of the given sections, section after section.
pub open spec fn questions_of(sections: Seq<(Seq<char>, SectionView)>) -> Seq<QuestionView>
    decreases sections.len(),
{
    if sections.len() == 0 {
        Seq::empty()
    } else {
        questions_of(sections.drop_last()) + sections.last().1.questions
    }
}

/// All questions of a part, in the key order of its sections.
pub open spec fn part_questions(part: TestPartView) -> Seq<QuestionView> {
    questions_of(part.sections)
}

/// All questions of a test, part after part.
pub open spec fn test_questions(test: Seq<(Seq<char>, TestPartView)>) -> Seq<QuestionView>
    decreases test.len(),
{
    if test.len() == 0 {
        Seq::empty()
    } else {
        test_questions(test.drop_last()) + part_questions(test.last().1)
    }
}

/// The index of the first choice from `start` on that is marked correct, or
/// the number of choices if there is none.
pub open spec fn first_correct_from(choices: Seq<(char, AnswerChoiceView)>, start: int) -> int
    decreases choices.len() - start,
{
    if start < 0 || start >= choices.len() {
        choices.len() as int
    } else if choices[start].1.correct {
        start
    } else {
        first_correct_from(choices, start + 1)
    }
}

/// The letter of the first choice marked correct, if any choice is.
pub open spec fn correct_choice(choices: Seq<(char, AnswerChoiceView)>) -> Option<char> {
    let first = first_correct_from(choices, 0);
    if first < choices.len() {
        Some(choices[first].0)
    } else {
        None
    }
}

/// The index of correct answers of a list of questions: each id leads to the
/// correct choice of the last question that bears it.
pub open spec fn answers_of(questions: Seq<QuestionView>) -> Map<Seq<char>, Option<char>>
    decreases questions.len(),
{
    if questions.len() == 0 {
        Map::empty()
    } else {
        answers_of(questions.drop_last()).insert(
            questions.last().id,
            correct_choice(questions.last().choices),
        )
    }
}

/// The index of correct answers of a whole test.
pub open spec fn correct_answers(test: Seq<(Seq<char>, TestPartView)>) -> Map<
    Seq<char>,
    Option<char>,
> {
    answers_of(test_questions(test))
}

/// The first correct choice is the earliest choice marked correct.
pub proof fn lemma_first_correct(choices: Seq<(char, AnswerChoiceView)>, start: int)
    requires
        0 <= start <= choices.len(),
    ensures
        start <= first_correct_from(choices, start) <= choices.len(),
        first_correct_from(choices, start) < choices.len() ==> choices[first_correct_from(
            choices,
            start,
        )].1.correct,
        forall|j: int|
            start <= j < first_correct_from(choices, start) ==> !(#[trigger] choices[j]).1.correct,
    decreases choices.len() - start,
{
    if start < choices.len() && !choices[start].1.correct {
        lemma_first_correct(choices, start + 1);
    }
}

impl Question {
    /// The letter of the first choice marked correct, if any choice is.
    pub fn correct_answer(&self) -> (letter: Option<char>)
        ensures
            letter == correct_choice(self@.choices),
    {
        let mut i: usize = 0;
        while i < self.choices.len()
            invariant
                i <= self.choices@.len(),
                first_correct_from(self@.choices, 0) == first_correct_from(self@.choices, i as int),
            decreases self.choices@.len() - i,
        {
            if self.choices[i].1.correct {
                return Some(self.choices[i].0);
            }
            i = i + 1;
        }
        None
    }
}

impl TestPart {
    /// All questions of the part, in the key order of its sections.
    pub fn get_questions(&self) -> (questions: Vec<&Question>)
        ensures
            question_refs_view(questions@) == part_questions(self@),
    {
        let mut questions: Vec<&Question> = Vec::new();
        let n = self.sections.len();
        let mut i: usize = 0;
        while i < n
            invariant
                i <= n,
                n == self.sections.keys().len(),
                n == self.sections.values().len(),
                question_refs_view(questions@) == questions_of(self@.sections.take(i as int)),
            decreases n - i,
        {
            let section = self.sections.value_at(i);
            let ghost before = question_refs_view(questions@);
            let mut j: usize = 0;
            while j < section.questions.len()
                invariant
                    j <= section.questions@.len(),
                    question_refs_view(questions@) == before + section@.questions.take(j as int),
                decreases section.questions@.len() - j,
            {
                let ghost prev = question_refs_view(questions@);
                questions.push(&section.questions[j]);
                assert(question_refs_view(questions@) =~= prev.push(section.questions@[j as int]@));
                j = j + 1;
            }
            proof {
                let upto = self@.sections.take(i + 1);
                assert(upto.drop_last() =~= self@.sections.take(i as int));
            }
            i = i + 1;
        }
        assert(self@.sections.take(n as int) =~= self@.sections);
        questions
    }
}

impl Default for Test {
    /// The empty test.
    fn default() -> (test: Test)
        ensures
            test@ == Seq::<(Seq<char>, TestPartView)>::empty(),
    {
        let test = Test(StrMap::new());
        test
    }
}

impl Test {
    /// Loads a raw test: each part is loaded under its own id.
    pub fn from(val: RawTest) -> (test: Test)
        ensures
            test@ == load_test(val@),
    {
        let mut new_test: StrMap<TestPart> = StrMap::new();
        let n = val.0.len();
        let mut i: usize = 0;
        while i < n
            invariant
                i <= n,
                n == val.0.keys().len(),
                n == val.0.values().len(),
                keys_sorted(val.0.keys()),
                new_test.keys() == val.0.keys().take(i as int),
                new_test.values().len() == i,
                forall|j: int|
                    0 <= j < i ==> (#[trigger] new_test.values()[j])@ == load_part(
                        val.0.values()[j]@,
                        val.0.keys()[j],
                    ),
            decreases n - i,
        {
            let part_id = val.0.key_at(i);
            let test_part = TestPart::from_raw(val.0.value_at(i), part_id.as_str());
            proof {
                lemma_entered_at_end(new_test.keys(), new_test.values(), part_id@, test_part);
            }
            new_test.insert(part_id.clone(), test_part);
            i = i + 1;
        }
        let test = Test(new_test);
        proof {
            assert(test@ =~= load_test(val@));
        }
        test
    }

    /// The parts by part id, in id order.
    pub fn iter(&self) -> (parts: &StrMap<TestPart>)
        ensures
            parts.entries() == self@,
    {
        &self.0
    }

    /// The part under the id `key`, if the test has one.
    pub fn get(&self, key: &str) -> (part: Option<&TestPart>)
        ensures
            match part {
                Some(found) => exists|i: int|
                    0 <= i < self@.len() && (#[trigger] self@[i]).0 == key@ && self@[i].1
                        == found@,
                None => forall|i: int| 0 <= i < self@.len() ==> (#[trigger] self@[i]).0 != key@,
            },
    {
        match self.0.find(key) {
            Some(index) => {
                let found = self.0.value_at(index);
                assert(self@[index as int].0 == key@ && self@[index as int].1 == found@);
                Some(found)
            },
            None => {
                assert forall|i: int| 0 <= i < self@.len() implies (#[trigger] self@[i]).0
                    != key@ by {
                    assert(self.0.keys()[i] == self@[i].0);
                }
                None
            },
        }
    }

    /// Builds the index of correct answers: for every question of the test,
    /// the letter of its first choice marked correct.
    pub fn get_correct_answers(&self) -> (answers: AnswersDB)
        ensures
            answers.map() == correct_answers(self@),
    {
        let mut answers: AnswersDB = StrMap::new();
        let n = self.0.len();
        let mut i: usize = 0;
        while i < n
            invariant
                i <= n,
                n == self.0.keys().len(),
                n == self.0.values().len(),
                answers.map() == answers_of(test_questions(self@.take(i as int))),
            decreases n - i,
        {
            let part = self.0.value_at(i);
            let questions = part.get_questions();
            let ghost before = test_questions(self@.take(i as int));
            let ghost all = part_questions(part@);
            let mut j: usize = 0;
            while j < questions.len()
                invariant
                    j <= questions@.len(),
                    question_refs_view(questions@) == all,
                    answers.map() == answers_of(before + all.take(j as int)),
                decreases questions@.len() - j,
            {
                let question = questions[j];
                proof {
                    let next = before + all.take(j + 1);
                    assert(next.drop_last() =~= before + all.take(j as int));
                }
                answers.insert(question.id.clone(), question.correct_answer());
                j = j + 1;
            }
            proof {
                assert(all.take(j as int) =~= all);
                let upto = self@.take(i + 1);
                assert(upto.drop_last() =~= self@.take(i as int));
            }
            i = i + 1;
        }
        assert(self@.take(n as int) =~= self@);
        answers
    }
}

} // verus!
