use crate::action::Action;
use crate::prompter::PromptError;
use vstd::prelude::*;

verus! {

/// `String::pop` takes the last character off the string and hands it
/// out; of an empty string it takes nothing.
pub assume_specification[ String::pop ](s: &mut String) -> (r: Option<char>)
    ensures
        match r {
            Some(c) => old(s)@.len() > 0 && c == old(s)@.last() && final(s)@ == old(s)@.drop_last(),
            None => old(s)@.len() == 0 && final(s)@ == old(s)@,
        },
;

/// `String::push` appends one character to the string.
pub assume_specification[ String::push ](s: &mut String, c: char)
    ensures
        final(s)@ == old(s)@.push(c),
;

/// What `str::to_lowercase` makes of a text.
pub uninterp spec fn lowercase(text: Seq<char>) -> Seq<char>;

/// `str::to_lowercase` gives the text in lower case, as Unicode defines it.
pub assume_specification[ str::to_lowercase ](s: &str) -> (r: String)
    ensures
        r@ == lowercase(s@),
;

/// The value of the decimal digit `c`, if `c` is one of `0` to `9`.
pub open spec fn digit_value(c: char) -> Option<nat> {
    let code = c as u32;
    if 48 <= code <= 57 {
        Some((code - 48) as nat)
    } else {
        None
    }
}

/// The number that `digits` spell out in decimal: `None` where one of
/// them is no digit. No digits at all spell out zero.
pub open spec fn decimal_value(digits: Seq<char>) -> Option<nat>
    decreases digits.len(),
{
    if digits.len() == 0 {
        Some(0)
    } else {
        match (decimal_value(digits.drop_last()), digit_value(digits.last())) {
            (Some(front), Some(last)) => Some(front * 10 + last),
            _ => None,
        }
    }
}

/// What `str::parse` reads out of a text as a `u64`. The text is to be a
/// plus sign, which may be missing, and then nothing but decimal digits,
/// at least one; the number that they spell out is read if it fits.
pub open spec fn parsed_number(text: Seq<char>) -> Option<u64> {
    let digits = if text.len() > 0 && text[0] == '+' {
        text.skip(1)
    } else {
        text
    };
    match decimal_value(digits) {
        Some(value) => if digits.len() > 0 && value <= u64::MAX {
            Some(value as u64)
        } else {
            None
        },
        None => None,
    }
}

/// `str::parse` for `u64`. As the documentation of `u64::from_str` has
/// it, the text is read as an optional plus sign followed by decimal
/// digits only; anything else, a text without digits and a number that
/// does not fit are errors, which are handed on as `None`.
#[verifier::external_body]
pub(crate) fn parse_number(text: &str) -> (r: Option<u64>)
    ensures
        r == parsed_number(text@),
{
    text.parse::<u64>().ok()
}

/// Whether the two texts are the same.
pub fn same_text(a: &str, b: &str) -> (r: bool)
    ensures
        r == (a@ == b@),
{
    a.to_string() == b.to_string()
}

/// `text` without `mark` at its end, if it ends in `mark`.
pub open spec fn without_trailing(text: Seq<char>, mark: char) -> Seq<char> {
    if text.len() > 0 && text.last() == mark {
        text.drop_last()
    } else {
        text
    }
}

/// A line as it was read, without the line feed at its end and without
/// the carriage return before that.
pub open spec fn without_line_end(line: Seq<char>) -> Seq<char> {
    without_trailing(without_trailing(line, '\n'), '\r')
}

/// Takes `mark` off the end of `text`, if it is there.
pub fn strip_trailing(text: &mut String, mark: char)
    ensures
        final(text)@ == without_trailing(old(text)@, mark),
{
    match text.pop() {
        Some(last) => {
            if last != mark {
                text.push(last);
                assert(text@ =~= old(text)@);
            }
        },
        None => {},
    }
}

/// Takes the end of the line off a line that was read.
pub fn strip_line_end(line: String) -> (r: String)
    ensures
        r@ == without_line_end(line@),
{
    let mut response = line;
    strip_trailing(&mut response, '\n');
    strip_trailing(&mut response, '\r');
    response
}

/// What a player can ask for at a prompt in place of an answer.
#[derive(Clone, Copy, Debug, PartialEq, Eq, Structural)]
pub enum Command {
    /// To be shown the public state of the game.
    Show,
    /// To be shown the own hand.
    Hand,
    /// To be told what can be asked for.
    Help,
}

/// The command that `word` stands for, if it stands for one.
pub open spec fn command_of(word: Seq<char>) -> Option<Command> {
    if word == "show"@ {
        Some(Command::Show)
    } else if word == "hand"@ {
        Some(Command::Hand)
    } else if word == "help"@ {
        Some(Command::Help)
    } else {
        None
    }
}

/// The command that `word`, in lower case, stands for.
pub fn command_named(word: &str) -> (r: Option<Command>)
    ensures
        r == command_of(word@),
{
    if same_text(word, "show") {
        Some(Command::Show)
    } else if same_text(word, "hand") {
        Some(Command::Hand)
    } else if same_text(word, "help") {
        Some(Command::Help)
    } else {
        None
    }
}

/// The command that the response asks for, in whatever case it is
/// written; `None` where the response is an answer.
pub fn parse_command(response: &str) -> (r: Option<Command>)
    ensures
        r == command_of(lowercase(response@)),
{
    let lowered = response.to_lowercase();
    command_named(lowered.as_str())
}

/// The answers that mean yes.
pub open spec fn yes_words() -> Seq<Seq<char>> {
    seq![
        "yes"@,
        "yep"@,
        "y"@,
        "ya"@,
        "yer"@,
        "yar"@,
        "yessir"@,
        "yah"@,
        "yeah"@,
        "yup"@,
        "yupperino"@,
        "yy"@,
        "yyy"@,
    ]
}

/// The answers that mean no.
pub open spec fn no_words() -> Seq<Seq<char>> {
    seq![
        "no"@,
        "nope"@,
        "n"@,
        "nah"@,
        "no fucking way"@,
        "nada"@,
        "no thank you"@,
        "no way jose"@,
        "nein"@,
        "niet"@,
        "nn"@,
        "nnn"@,
        "nah guy"@,
    ]
}

/// What `choice` says to a question to be answered with yes or no.
pub open spec fn yes_or_no(choice: Seq<char>) -> Option<bool> {
    if yes_words().contains(choice) {
        Some(true)
    } else if no_words().contains(choice) {
        Some(false)
    } else {
        None
    }
}

/// Whether `text` is one of `words`.
pub fn is_one_of(text: &str, words: &Vec<&str>) -> (r: bool)
    ensures
        r == exists|i: int| 0 <= i < words@.len() && (#[trigger] words@[i])@ == text@,
{
    let mut i: usize = 0;
    while i < words.len()
        invariant
            i <= words.len(),
            forall|j: int| 0 <= j < i ==> (#[trigger] words@[j])@ != text@,
        decreases words.len() - i,
    {
        if same_text(words[i], text) {
            return true;
        }
        i += 1;
    }
    false
}

/// Reads an answer to a question to be answered with yes or no: `None`
/// where the answer is neither.
pub fn parse_yes_no(choice: &str) -> (r: Option<bool>)
    ensures
        r == yes_or_no(choice@),
{
    let yes: Vec<&str> = vec![
        "yes",
        "yep",
        "y",
        "ya",
        "yer",
        "yar",
        "yessir",
        "yah",
        "yeah",
        "yup",
        "yupperino",
        "yy",
        "yyy",
    ];
    let no: Vec<&str> = vec![
        "no",
        "nope",
        "n",
        "nah",
        "no fucking way",
        "nada",
        "no thank you",
        "no way jose",
        "nein",
        "niet",
        "nn",
        "nnn",
        "nah guy",
    ];
    proof {
        assert(yes@.len() == 13 && yes_words().len() == 13);
        assert(no@.len() == 13 && no_words().len() == 13);
        assert forall|i: int| 0 <= i < 13 implies (#[trigger] yes@[i])@ == yes_words()[i] by {}
        assert forall|i: int| 0 <= i < 13 implies (#[trigger] no@[i])@ == no_words()[i] by {}
        if yes_words().contains(choice@) {
            let i = choose|i: int| 0 <= i < 13 && yes_words()[i] == choice@;
            assert(yes@[i]@ == choice@);
        }
        if no_words().contains(choice@) {
            let i = choose|i: int| 0 <= i < 13 && no_words()[i] == choice@;
            assert(no@[i]@ == choice@);
        }
    }
    if is_one_of(choice, &yes) {
        let ghost i = choose|i: int| 0 <= i < yes@.len() && (#[trigger] yes@[i])@ == choice@;
        assert(yes_words()[i] == choice@);
        Some(true)
    } else if is_one_of(choice, &no) {
        let ghost i = choose|i: int| 0 <= i < no@.len() && (#[trigger] no@[i])@ == choice@;
        assert(no_words()[i] == choice@);
        Some(false)
    } else {
        None
    }
}

/// The index that `number` picks among `available` choices.
pub open spec fn index_of(number: Option<u64>, available: nat) -> Result<usize, PromptError> {
    match number {
        None => Err(PromptError::NotANumber),
        Some(n) => if n < available {
            Ok(n as usize)
        } else {
            Err(PromptError::InvalidChoice)
        },
    }
}

/// What becomes of a number that was read as the index of one of
/// `available` choices.
pub fn choice_at(number: Option<u64>, available: usize) -> (r: Result<usize, PromptError>)
    ensures
        r == index_of(number, available as nat),
        r matches Ok(i) ==> i < available,
{
    match number {
        None => Err(PromptError::NotANumber),
        Some(n) => {
            if n < available as u64 {
                Ok(n as usize)
            } else {
                Err(PromptError::InvalidChoice)
            }
        },
    }
}

/// Reads a response as the index of one of `available` choices.
pub fn pick_index(response: &str, available: usize) -> (r: Result<usize, PromptError>)
    ensures
        r == index_of(parsed_number(response@), available as nat),
        r matches Ok(i) ==> i < available,
{
    choice_at(parse_number(response), available)
}

/// Reads a response as the pick of one of `possible_choices` by its index.
pub fn pick_action(response: &str, possible_choices: &Vec<Action>) -> (r: Result<Action, PromptError>)
    ensures
        match index_of(parsed_number(response@), possible_choices@.len()) {
            Ok(i) => r == Ok::<Action, PromptError>(possible_choices@[i as int]),
            Err(e) => r == Err::<Action, PromptError>(e),
        },
{
    match pick_index(response, possible_choices.len()) {
        Ok(i) => Ok(possible_choices[i]),
        Err(e) => Err(e),
    }
}

} // verus!
