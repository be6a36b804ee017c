//! The hours entry: a text buffer of digits with at most one decimal point,
//! a cursor, and the rule that a day holds at most 24 hours.

use crate::model::{ActiveView, Key, Message};
use crate::text::{decimal_text, digit, digit_char, push_char, push_decimal, push_text, text_of};
use vstd::prelude::*;

verus! {

#[derive(Debug)]
pub enum HoursError {
    /// More than 24 hours; `hours` is the text given.
    InvalidHours { hours: String },
    /// Nothing was entered.
    Empty,
    /// The text is no decimal number.
    Unparsable { input: String },
}

impl HoursError {
    pub open spec fn text(self) -> Seq<char> {
        match self {
            HoursError::InvalidHours { hours } => "Valid input 0h...24h (given: "@ + hours@ + ")"@,
            HoursError::Empty => "hours cannot be empty"@,
            HoursError::Unparsable { input } => "invalid float literal"@,
        }
    }

    /// The message shown for the error.
    pub fn message(&self) -> (r: String)
        ensures
            r@ == self.text(),
    {
        match self {
            HoursError::InvalidHours { hours } => {
                let mut r = "Valid input 0h...24h (given: ".to_owned();
                push_text(&mut r, hours.as_str());
                push_text(&mut r, ")");
                r
            },
            HoursError::Empty => "hours cannot be empty".to_owned(),
            HoursError::Unparsable { input } => "invalid float literal".to_owned(),
        }
    }
}

pub open spec fn is_digit(c: char) -> bool {
    '0' <= c && c <= '9'
}

pub open spec fn digit_value(c: char) -> int {
    c as int - '0' as int
}

/// ASCII digits with at most one decimal point.
pub open spec fn is_buffer_text(s: Seq<char>) -> bool {
    &&& forall|i: int| 0 <= i < s.len() ==> is_digit(#[trigger] s[i]) || s[i] == '.'
    &&& forall|i: int, j: int|
        #![trigger s[i], s[j]]
        0 <= i < s.len() && 0 <= j < s.len() && s[i] == '.' && s[j] == '.' ==> i == j
}

proof fn lemma_insert_keeps_buffer(s: Seq<char>, k: int, c: char)
    requires
        is_buffer_text(s),
        0 <= k <= s.len(),
        is_digit(c) || (c == '.' && !s.contains('.')),
    ensures
        is_buffer_text(s.insert(k, c)),
{
    let t = s.insert(k, c);
    assert forall|i: int| 0 <= i < t.len() implies is_digit(#[trigger] t[i]) || t[i] == '.' by {
        if i < k {
            assert(t[i] == s[i]);
        } else if i > k {
            assert(t[i] == s[i - 1]);
        }
    }
    assert forall|i: int, j: int|
        #![trigger t[i], t[j]]
        0 <= i < t.len() && 0 <= j < t.len() && t[i] == '.' && t[j] == '.' implies i == j by {
        let si = if i < k { i } else { i - 1 };
        let sj = if j < k { j } else { j - 1 };
        if i != k && j != k {
            assert(s[si] == '.' && s[sj] == '.');
        } else if i == k && j != k {
            assert(s[sj] == '.');
            assert(s.contains('.'));
        } else if i != k && j == k {
            assert(s[si] == '.');
            assert(s.contains('.'));
        }
    }
}

proof fn lemma_remove_keeps_buffer(s: Seq<char>, k: int)
    requires
        is_buffer_text(s),
        0 <= k < s.len(),
    ensures
        is_buffer_text(s.remove(k)),
{
    let t = s.remove(k);
    assert forall|i: int| 0 <= i < t.len() implies is_digit(#[trigger] t[i]) || t[i] == '.' by {
        if i < k {
            assert(t[i] == s[i]);
        } else {
            assert(t[i] == s[i + 1]);
        }
    }
    assert forall|i: int, j: int|
        #![trigger t[i], t[j]]
        0 <= i < t.len() && 0 <= j < t.len() && t[i] == '.' && t[j] == '.' implies i == j by {
        let si = if i < k { i } else { i + 1 };
        let sj = if j < k { j } else { j + 1 };
        assert(s[si] == '.' && s[sj] == '.');
    }
}

/// Digits, with at most one decimal point, and at least one digit.
pub open spec fn is_hours_text(s: Seq<char>) -> bool {
    &&& forall|i: int| 0 <= i < s.len() ==> is_digit(#[trigger] s[i]) || s[i] == '.'
    &&& forall|i: int, j: int|
        #![trigger s[i], s[j]]
        0 <= i < s.len() && 0 <= j < s.len() && s[i] == '.' && s[j] == '.' ==> i == j
    &&& exists|i: int| 0 <= i < s.len() && is_digit(#[trigger] s[i])
}

/// Index of the decimal point, or the length where there is none.
pub open spec fn point_index(s: Seq<char>) -> int {
    if exists|i: int| 0 <= i < s.len() && s[i] == '.' {
        choose|i: int| 0 <= i < s.len() && s[i] == '.'
    } else {
        s.len() as int
    }
}

/// Value of a run of decimal digits.
pub open spec fn digits_value(s: Seq<char>) -> int
    decreases s.len(),
{
    if s.len() == 0 {
        0
    } else {
        digits_value(s.drop_last()) * 10 + digit_value(s.last())
    }
}

pub open spec fn whole_part(s: Seq<char>) -> int {
    digits_value(s.subrange(0, point_index(s)))
}

pub open spec fn fraction(s: Seq<char>) -> Seq<char> {
    if point_index(s) < s.len() {
        s.subrange(point_index(s) + 1, s.len() as int)
    } else {
        Seq::empty()
    }
}

pub open spec fn fraction_digit(s: Seq<char>, i: int) -> int {
    if i < fraction(s).len() {
        digit_value(fraction(s)[i])
    } else {
        0
    }
}

/// The number written is more than 24.
pub open spec fn above_day(s: Seq<char>) -> bool {
    whole_part(s) > 24 || (whole_part(s) == 24 && exists|i: int|
        0 <= i < fraction(s).len() && fraction(s)[i] != '0')
}

/// The number written, in hundredths; further digits are dropped.
pub open spec fn hundredths(s: Seq<char>) -> int {
    whole_part(s) * 100 + fraction_digit(s, 0) * 10 + fraction_digit(s, 1)
}

/// Text of a number of hundredths: the whole hours, then the fraction
/// without trailing zeros.
pub open spec fn hundredths_text(h: nat) -> Seq<char> {
    decimal_text(h / 100) + if h % 100 == 0 {
        Seq::<char>::empty()
    } else if h % 10 == 0 {
        seq!['.', digit_char((h % 100 / 10) as int)]
    } else {
        seq!['.', digit_char((h % 100 / 10) as int), digit_char((h % 10) as int)]
    }
}

/// Accepts at most 24 hours (2400 hundredths).
pub fn validate_hours(hours: u32) -> (r: Result<(), HoursError>)
    ensures
        r is Ok <==> hours <= 2400,
        r is Err ==> match r {
            Err(HoursError::InvalidHours { hours: t }) => t@ == hundredths_text(hours as nat),
            _ => false,
        },
{
    if hours <= 2400 {
        return Ok(());
    }
    let mut t = String::new();
    push_decimal(&mut t, (hours / 100) as u64);
    let rest = hours % 100;
    if rest != 0 {
        push_char(&mut t, '.');
        push_char(&mut t, digit((rest / 10) as u64));
        if rest % 10 != 0 {
            push_char(&mut t, digit((rest % 10) as u64));
        }
    }
    proof {
        let h = hours as nat;
        if h % 100 != 0 {
            assert(rest / 10 == h % 100 / 10);
            assert(rest % 10 == h % 10);
        }
        assert(t@ =~= hundredths_text(h));
    }
    Err(HoursError::InvalidHours { hours: t })
}

#[derive(Debug, PartialEq, Eq, Hash)]
pub enum HoursMessage {
    /// Open the entry for the project with this id.
    Open(String),
    ValidationError(String),
    Return,
}

/// What `parse_hours` owes for a text.
pub open spec fn parse_outcome(s: Seq<char>, r: Result<u32, HoursError>) -> bool {
    if s.len() == 0 {
        r matches Err(HoursError::Empty)
    } else if !is_hours_text(s) {
        r matches Err(HoursError::Unparsable { input }) && input@ == s
    } else if above_day(s) {
        r matches Err(HoursError::InvalidHours { hours }) && hours@ == s
    } else {
        r == Ok::<u32, HoursError>(hundredths(s) as u32)
    }
}

proof fn lemma_point_index(s: Seq<char>, k: int)
    requires
        0 <= k <= s.len(),
        k < s.len() ==> s[k] == '.',
        forall|j: int| 0 <= j < s.len() && j != k ==> s[j] != '.',
    ensures
        point_index(s) == k,
{
    if exists|i: int| 0 <= i < s.len() && s[i] == '.' {
        let c = choose|i: int| 0 <= i < s.len() && s[i] == '.';
        assert(s[c] == '.');
    }
}

/// Reads a number of hours, in hundredths, from the text of the entry: an
/// error where it is empty, no decimal number, or more than 24.
pub fn parse_hours(input: &Vec<char>) -> (r: Result<u32, HoursError>)
    ensures
        parse_outcome(input@, r),
{
    let ghost s = input@;
    let n = input.len();
    if n == 0 {
        return Err(HoursError::Empty);
    }
    let mut point: usize = n;
    let mut any_digit = false;
    let mut valid = true;
    let mut i: usize = 0;
    while i < n
        invariant
            n == input@.len(),
            s == input@,
            i <= n,
            point == n || (point < i && s[point as int] == '.'),
            valid ==> forall|j: int|
                0 <= j < i && j != point ==> (#[trigger] s[j]) != '.',
            valid ==> forall|j: int| 0 <= j < i ==> is_digit(#[trigger] s[j]) || s[j] == '.',
            !valid ==> !is_hours_text(s),
            any_digit == exists|j: int| 0 <= j < i && is_digit(#[trigger] s[j]),
        decreases n - i,
    {
        let c = input[i];
        if '0' <= c && c <= '9' {
            any_digit = true;
        } else if c == '.' {
            if point < n {
                if valid {
                    assert(s[point as int] == '.' && s[i as int] == '.');
                }
                valid = false;
            } else {
                point = i;
            }
        } else {
            valid = false;
        }
        i = i + 1;
    }
    if !valid || !any_digit {
        return Err(HoursError::Unparsable { input: text_of(input) });
    }
    assert(is_hours_text(s));
    proof {
        lemma_point_index(s, point as int);
    }
    // whole part, held at 25 once it passes 24
    let mut whole: u32 = 0;
    let mut k: usize = 0;
    while k < point
        invariant
            point <= n,
            n == input@.len(),
            s == input@,
            is_hours_text(s),
            k <= point,
            forall|j: int| 0 <= j < point ==> is_digit(#[trigger] s[j]),
            whole == if digits_value(s.subrange(0, k as int)) > 25 {
                25
            } else {
                digits_value(s.subrange(0, k as int))
            },
            digits_value(s.subrange(0, k as int)) >= 0,
        decreases point - k,
    {
        assert(s.subrange(0, k + 1).drop_last() =~= s.subrange(0, k as int));
        assert(is_digit(s[k as int]));
        let d = (input[k] as u32) - ('0' as u32);
        let next = whole * 10 + d;
        whole = if next > 25 { 25 } else { next };
        k = k + 1;
    }
    // any non-zero digit after the point
    let mut nonzero = false;
    let mut f: usize = if point < n { point + 1 } else { n };
    let ghost start = f;
    assert(fraction(s) =~= s.subrange(start as int, n as int));
    while f < n
        invariant
            start <= f <= n,
            n == input@.len(),
            s == input@,
            fraction(s) =~= s.subrange(start as int, n as int),
            nonzero == exists|j: int| start <= j < f && s[j] != '0',
        decreases n - f,
    {
        if input[f] != '0' {
            nonzero = true;
        }
        f = f + 1;
    }
    proof {
        if nonzero {
            let j = choose|j: int| start <= j < f && s[j] != '0';
            assert(fraction(s)[j - start] != '0');
        }
        if exists|i: int| 0 <= i < fraction(s).len() && fraction(s)[i] != '0' {
            let i = choose|i: int| 0 <= i < fraction(s).len() && fraction(s)[i] != '0';
            assert(s[start + i] != '0');
        }
    }
    if whole > 24 || (whole == 24 && nonzero) {
        return Err(HoursError::InvalidHours { hours: text_of(input) });
    }
    let d1: u32 = if point < n && n - point > 1 {
        assert(is_digit(s[point + 1]));
        (input[point + 1] as u32) - ('0' as u32)
    } else {
        0
    };
    let d2: u32 = if point < n && n - point > 2 {
        assert(is_digit(s[point + 2]));
        (input[point + 2] as u32) - ('0' as u32)
    } else {
        0
    };
    Ok(whole * 100 + d1 * 10 + d2)
}

/// State of the hours entry.
#[derive(Debug)]
pub struct HoursModel {
    pub project: String,
    pub input: Vec<char>,
    pub character_index: usize,
    pub error_message: Option<String>,
    pub pending: Option<u32>,
}

impl HoursModel {
    pub open spec fn project_spec(&self) -> Seq<char> {
        self.project@
    }

    pub open spec fn input_spec(&self) -> Seq<char> {
        self.input@
    }

    pub open spec fn cursor(&self) -> int {
        self.character_index as int
    }

    /// Hours accepted by the last `Enter` and not yet taken.
    pub open spec fn pending_spec(&self) -> Option<u32> {
        self.pending
    }

    /// The cursor is within the text, which holds ASCII digits and at
    /// most one decimal point.
    pub open spec fn wf(&self) -> bool {
        &&& 0 <= self.cursor() <= self.input_spec().len()
        &&& is_buffer_text(self.input_spec())
    }

    pub fn new() -> (r: HoursModel)
        ensures
            r.wf(),
            r.project_spec() == Seq::<char>::empty(),
            r.input_spec() == Seq::<char>::empty(),
            r.cursor() == 0,
            r.error_message is None,
            r.pending_spec() is None,
    {
        HoursModel {
            project: String::new(),
            input: Vec::new(),
            character_index: 0,
            error_message: None,
            pending: None,
        }
    }

    /// The text entered so far.
    pub fn input(&self) -> (r: String)
        ensures
            r@ == self.input_spec(),
    {
        text_of(&self.input)
    }

    /// Cursor position, in characters.
    pub fn character_index(&self) -> (r: usize)
        ensures
            r == self.cursor(),
    {
        self.character_index
    }

    /// Id of the project the hours are for.
    pub fn project(&self) -> (r: &String)
        ensures
            r@ == self.project_spec(),
    {
        &self.project
    }

    /// Takes the hours that the last `Enter` accepted, if any.
    pub fn take_pending(&mut self) -> (r: Option<u32>)
        ensures
            r == old(self).pending_spec(),
            final(self).pending_spec() is None,
            final(self).project_spec() == old(self).project_spec(),
            final(self).input_spec() == old(self).input_spec(),
            final(self).cursor() == old(self).cursor(),
            final(self).error_message == old(self).error_message,
    {
        let r = self.pending;
        self.pending = None;
        r
    }

    /// Empties the buffer and clears the error, after hours were saved.
    pub fn clear(&mut self)
        ensures
            final(self).wf(),
            final(self).input_spec() == Seq::<char>::empty(),
            final(self).cursor() == 0,
            final(self).error_message is None,
            final(self).project_spec() == old(self).project_spec(),
            final(self).pending_spec() == old(self).pending_spec(),
    {
        self.input = Vec::new();
        self.character_index = 0;
        self.error_message = None;
    }

    fn has_point(&self) -> (r: bool)
        ensures
            r == self.input_spec().contains('.'),
    {
        let mut i: usize = 0;
        while i < self.input.len()
            invariant
                i <= self.input.len(),
                forall|j: int| 0 <= j < i ==> self.input@[j] != '.',
            decreases self.input.len() - i,
        {
            if self.input[i] == '.' {
                assert(self.input@[i as int] == '.');
                return true;
            }
            i = i + 1;
        }
        false
    }

    /// Types a character at the cursor. Only ASCII digits and a
    /// single decimal point are taken, and no point on an empty buffer.
    pub fn enter_char(&mut self, new_char: char)
        requires
            old(self).wf(),
        ensures
            final(self).wf(),
            final(self).project_spec() == old(self).project_spec(),
            final(self).pending_spec() == old(self).pending_spec(),
            final(self).error_message == old(self).error_message,
            if accepts_char(old(self).input_spec(), new_char) {
                &&& final(self).input_spec() == old(self).input_spec().insert(
                    old(self).cursor(),
                    new_char,
                )
                &&& final(self).cursor() == old(self).cursor() + 1
            } else {
                &&& final(self).input_spec() == old(self).input_spec()
                &&& final(self).cursor() == old(self).cursor()
            },
    {
        if self.input.len() == 0 && new_char == '.' {
            return ;
        }
        if new_char == '.' && self.has_point() {
            return ;
        }
        if ('0' <= new_char && new_char <= '9') || new_char == '.' {
            proof {
                lemma_insert_keeps_buffer(self.input@, self.character_index as int, new_char);
            }
            self.input.insert(self.character_index, new_char);
            self.move_cursor_right();
        }
    }

    /// Moves the cursor one character left, stopping at the start.
    pub fn move_cursor_left(&mut self)
        requires
            old(self).wf(),
        ensures
            final(self).wf(),
            final(self).cursor() == if old(self).cursor() == 0 {
                0
            } else {
                old(self).cursor() - 1
            },
            final(self).input_spec() == old(self).input_spec(),
            final(self).project_spec() == old(self).project_spec(),
            final(self).pending_spec() == old(self).pending_spec(),
            final(self).error_message == old(self).error_message,
    {
        if self.character_index > 0 {
            self.character_index = self.character_index - 1;
        }
    }

    /// Moves the cursor one character right, stopping at the end.
    pub fn move_cursor_right(&mut self)
        requires
            old(self).cursor() <= old(self).input_spec().len(),
        ensures
            final(self).cursor() <= final(self).input_spec().len(),
            old(self).wf() ==> final(self).wf(),
            final(self).cursor() == if old(self).cursor() == old(self).input_spec().len() {
                old(self).cursor()
            } else {
                old(self).cursor() + 1
            },
            final(self).input_spec() == old(self).input_spec(),
            final(self).project_spec() == old(self).project_spec(),
            final(self).pending_spec() == old(self).pending_spec(),
            final(self).error_message == old(self).error_message,
    {
        if self.character_index < self.input.len() {
            self.character_index = self.character_index + 1;
        }
    }

    /// Removes the character left of the cursor, if there is one.
    pub fn delete_char(&mut self)
        requires
            old(self).wf(),
        ensures
            final(self).wf(),
            final(self).project_spec() == old(self).project_spec(),
            final(self).pending_spec() == old(self).pending_spec(),
            final(self).error_message == old(self).error_message,
            if old(self).cursor() == 0 {
                &&& final(self).input_spec() == old(self).input_spec()
                &&& final(self).cursor() == 0
            } else {
                &&& final(self).input_spec() == old(self).input_spec().remove(
                    old(self).cursor() - 1,
                )
                &&& final(self).cursor() == old(self).cursor() - 1
            },
    {
        if self.character_index != 0 {
            proof {
                lemma_remove_keeps_buffer(self.input@, self.character_index - 1);
            }
            self.input.remove(self.character_index - 1);
            self.character_index = self.character_index - 1;
        }
    }
}

/// The message reports this validation error.
pub open spec fn reports_error(r: Option<Message>, text: Seq<char>) -> bool {
    match r {
        Some(Message::AddHours(HoursMessage::ValidationError(t))) => t@ == text,
        _ => false,
    }
}

/// The buffer takes the character.
pub open spec fn accepts_char(input: Seq<char>, c: char) -> bool {
    if c == '.' {
        input.len() > 0 && !input.contains('.')
    } else {
        is_digit(c)
    }
}

/// What a key press does to the hours entry and which message it gives.
pub open spec fn key_effect(before: HoursModel, key: Key, after: HoursModel, r: Option<Message>) -> bool {
    &&& after.wf()
    &&& after.project_spec() == before.project_spec()
    &&& after.error_message == before.error_message
    &&& match key {
        Key::Enter => {
            &&& after.input_spec() == before.input_spec()
            &&& after.cursor() == before.cursor()
            &&& if before.input_spec().len() == 0 {
                r is None && after.pending_spec() == before.pending_spec()
            } else {
                exists|p: Result<u32, HoursError>|
                    #![trigger parse_outcome(before.input_spec(), p)]
                    parse_outcome(before.input_spec(), p) && match p {
                        Ok(h) => r is None && after.pending_spec() == Some(h),
                        Err(e) => after.pending_spec() == before.pending_spec()
                            && reports_error(r, e.text()),
                    }
            }
        },
        Key::Char(c) => {
            &&& r is None
            &&& after.pending_spec() == before.pending_spec()
            &&& if accepts_char(before.input_spec(), c) {
                &&& after.input_spec() == before.input_spec().insert(before.cursor(), c)
                &&& after.cursor() == before.cursor() + 1
            } else {
                &&& after.input_spec() == before.input_spec()
                &&& after.cursor() == before.cursor()
            }
        },
        Key::Backspace => {
            &&& r is None
            &&& after.pending_spec() == before.pending_spec()
            &&& if before.cursor() == 0 {
                &&& after.input_spec() == before.input_spec()
                &&& after.cursor() == 0
            } else {
                &&& after.input_spec() == before.input_spec().remove(before.cursor() - 1)
                &&& after.cursor() == before.cursor() - 1
            }
        },
        Key::Other => r is None && after == before,
    }
}

/// A key press in the hours entry. `Enter` on an empty buffer does nothing;
/// on a valid number it keeps the hours for saving, and on any other text it
/// reports the validation error and keeps the buffer.
pub fn handle_key(key: Key, model: &mut HoursModel) -> (r: Option<Message>)
    requires
        old(model).wf(),
    ensures
        key_effect(*old(model), key, *final(model), r),
{
    match key {
        Key::Enter => {
            if model.input.len() == 0 {
                return None;
            }
            let parsed = parse_hours(&model.input);
            match parsed {
                Ok(h) => {
                    model.pending = Some(h);
                    None
                },
                Err(e) => Some(Message::AddHours(HoursMessage::ValidationError(e.message()))),
            }
        },
        Key::Char(c) => {
            model.enter_char(c);
            None
        },
        Key::Backspace => {
            model.delete_char();
            None
        },
        Key::Other => None,
    }
}

/// Messages of the hours entry. `Open` starts an empty entry for a project;
/// a validation error is shown in place, keeping the buffer.
pub fn update(model: &mut HoursModel, msg: HoursMessage) -> (r: Option<Message>)
    requires
        old(model).wf(),
    ensures
        final(model).wf(),
        final(model).pending_spec() == old(model).pending_spec(),
        match msg {
            HoursMessage::Open(p) => {
                &&& final(model).project_spec() == p@
                &&& final(model).input_spec() == Seq::<char>::empty()
                &&& final(model).cursor() == 0
                &&& final(model).error_message == old(model).error_message
                &&& r == Some(Message::View(ActiveView::LogHours))
            },
            HoursMessage::ValidationError(e) => {
                &&& final(model).error_message == Some(e)
                &&& final(model).project_spec() == old(model).project_spec()
                &&& final(model).input_spec() == old(model).input_spec()
                &&& final(model).cursor() == old(model).cursor()
                &&& r is None
            },
            HoursMessage::Return => r is None && *final(model) == *old(model),
        },
{
    match msg {
        HoursMessage::Open(project) => {
            model.project = project;
            model.input = Vec::new();
            model.character_index = 0;
            Some(Message::View(ActiveView::LogHours))
        },
        HoursMessage::ValidationError(e) => {
            model.error_message = Some(e);
            None
        },
        HoursMessage::Return => None,
    }
}

} // verus!
