//! Dates from text.
//!
//! `Date::from_str` reads the one form that `Date::to_string` writes, `YYYY-MM-DD`, and
//! nothing else. `Date::parse` reads a date after a template, as `strptime` does.
use crate::date::Date;
use crate::date::date_error;
use crate::date::DateError;
use crate::era::civil;
use crate::text::digit_char;
use crate::text::digits;
use crate::text::fill;
use crate::text::zero_padded;
use std::str::FromStr;
use vstd::prelude::*;
use vstd::string::StringExecFns;

verus! {

/// In what a text fails to be a date.
#[derive(Copy, Clone, Debug, PartialEq, Eq, Structural)]
pub enum ParseErrorKind {
    /// The text is not three components with a hyphen between each two.
    ComponentCount,
    /// The year is not four characters long.
    YearLength,
    /// The month is not two characters long.
    MonthLength,
    /// The day is not two characters long.
    DayLength,
    /// The year is not a number.
    Year,
    /// The month is not a number.
    Month,
    /// The day is not a number.
    Day,
    /// The year, the month and the day are numbers that name no day of the calendar.
    InvalidDate(DateError),
    /// The text is not what the template describes, or the template describes no date.
    Template,
    /// The template would have a century, a year of its century or an hour of its half-day
    /// read without a limit to its length.
    UnsupportedTemplate,
}

/// The failure to read a date from a text.
#[derive(Debug)]
pub struct ParseError {
    /// The text that was to be read.
    pub src: String,
    /// In what the text fails to be a date.
    pub kind: ParseErrorKind,
    /// The same in words.
    pub reason: String,
}

/// What `kind` is in words, but for `Template`, of which the words come from the reading.
pub open spec fn kind_reason(kind: ParseErrorKind) -> Seq<char> {
    match kind {
        ParseErrorKind::ComponentCount => "Too many components in date."@,
        ParseErrorKind::YearLength => "Invalid year length."@,
        ParseErrorKind::MonthLength => "Invalid month length."@,
        ParseErrorKind::DayLength => "Invalid day length."@,
        ParseErrorKind::Year => "Failed to parse year"@,
        ParseErrorKind::Month => "Failed to parse month"@,
        ParseErrorKind::Day => "Failed to parse day"@,
        ParseErrorKind::InvalidDate(DateError::MonthOutOfBounds) => "Month out-of-bounds"@,
        ParseErrorKind::InvalidDate(DateError::DayOutOfBounds) => "Day out-of-bounds"@,
        ParseErrorKind::InvalidDate(
            DateError::NotLeapYear,
        ) => "February 29 only occurs on leap years"@,
        ParseErrorKind::Template => "Input does not conform to format string"@,
        ParseErrorKind::UnsupportedTemplate => "Format string reads a number without a limit"@,
    }
}

impl ParseErrorKind {
    /// This kind of failure in words.
    pub fn reason(&self) -> (r: &'static str)
        ensures
            r@ == kind_reason(*self),
    {
        match self {
            ParseErrorKind::ComponentCount => "Too many components in date.",
            ParseErrorKind::YearLength => "Invalid year length.",
            ParseErrorKind::MonthLength => "Invalid month length.",
            ParseErrorKind::DayLength => "Invalid day length.",
            ParseErrorKind::Year => "Failed to parse year",
            ParseErrorKind::Month => "Failed to parse month",
            ParseErrorKind::Day => "Failed to parse day",
            ParseErrorKind::InvalidDate(DateError::MonthOutOfBounds) => "Month out-of-bounds",
            ParseErrorKind::InvalidDate(DateError::DayOutOfBounds) => "Day out-of-bounds",
            ParseErrorKind::InvalidDate(
                DateError::NotLeapYear,
            ) => "February 29 only occurs on leap years",
            ParseErrorKind::Template => "Input does not conform to format string",
            ParseErrorKind::UnsupportedTemplate => "Format string reads a number without a limit",
        }
    }
}

/// What a failure to read a date from `src` says of itself, with `reason` for its reason.
pub open spec fn error_text(src: Seq<char>, reason: Seq<char>) -> Seq<char> {
    "Parse error attempting to parse Date from "@ + src + ": "@ + reason
}

impl ParseError {
    /// The failure of kind `kind` to read a date from `src`.
    pub fn new(src: &str, kind: ParseErrorKind) -> (r: ParseError)
        ensures
            r.src@ == src@,
            r.kind == kind,
            r.reason@ == kind_reason(kind),
    {
        ParseError { src: src.to_owned(), kind, reason: kind.reason().to_owned() }
    }

    /// What this failure says of itself: the text that was to be read, and the reason.
    pub fn to_string(&self) -> (r: String)
        ensures
            r@ == error_text(self.src@, self.reason@),
    {
        let mut out = "Parse error attempting to parse Date from ".to_owned();
        out.append(self.src.as_str());
        out.append(": ");
        out.append(self.reason.as_str());
        out
    }
}

/// The places of the hyphens in `text`, in order.
pub open spec fn hyphens(text: Seq<char>) -> Seq<int>
    decreases text.len(),
{
    if text.len() == 0 {
        Seq::empty()
    } else if text.last() == '-' {
        hyphens(text.drop_last()).push(text.len() - 1)
    } else {
        hyphens(text.drop_last())
    }
}

/// Whether `c` is one of the digits 0 to 9.
pub open spec fn is_digit(c: char) -> bool {
    '0' <= c <= '9'
}

/// Whether `text` holds digits only.
pub open spec fn all_digits(text: Seq<char>) -> bool {
    forall|i: int| 0 <= i < text.len() ==> is_digit(#[trigger] text[i])
}

/// The number that the digits of `text` are in decimal.
pub open spec fn number(text: Seq<char>) -> int
    decreases text.len(),
{
    if text.len() == 0 {
        0
    } else {
        10 * number(text.drop_last()) + (text.last() as int - '0' as int)
    }
}

/// The year, the month and the day that `text` holds, if it has the form `YYYY-MM-DD` and names
/// a day of the calendar, and else in what it fails.
pub open spec fn iso_fields(text: Seq<char>) -> Result<(int, int, int), ParseErrorKind> {
    let at = hyphens(text);
    if at.len() != 2 {
        Err(ParseErrorKind::ComponentCount)
    } else {
        let year = text.subrange(0, at[0]);
        let month = text.subrange(at[0] + 1, at[1]);
        let day = text.subrange(at[1] + 1, text.len() as int);
        if year.len() != 4 {
            Err(ParseErrorKind::YearLength)
        } else if month.len() != 2 {
            Err(ParseErrorKind::MonthLength)
        } else if day.len() != 2 {
            Err(ParseErrorKind::DayLength)
        } else if !all_digits(year) {
            Err(ParseErrorKind::Year)
        } else if !all_digits(month) {
            Err(ParseErrorKind::Month)
        } else if !all_digits(day) {
            Err(ParseErrorKind::Day)
        } else {
            match date_error(number(year), number(month), number(day)) {
                Some(error) => Err(ParseErrorKind::InvalidDate(error)),
                None => Ok((number(year), number(month), number(day))),
            }
        }
    }
}

/// The hyphens of a text lie in it, one after the other, and are hyphens.
pub proof fn lemma_hyphens(text: Seq<char>)
    ensures
        forall|k: int|
            0 <= k < hyphens(text).len() ==> 0 <= #[trigger] hyphens(text)[k] < text.len()
                && text[hyphens(text)[k]] == '-',
        forall|j: int, k: int|
            0 <= j < k < hyphens(text).len() ==> hyphens(text)[j] < hyphens(text)[k],
    decreases text.len(),
{
    if text.len() > 0 {
        let before = text.drop_last();
        lemma_hyphens(before);
        assert forall|k: int| 0 <= k < hyphens(text).len() implies 0 <= #[trigger] hyphens(
            text,
        )[k] < text.len() && text[hyphens(text)[k]] == '-' by {
            if k < hyphens(before).len() {
                assert(hyphens(text)[k] == hyphens(before)[k]);
                assert(text[hyphens(before)[k]] == before[hyphens(before)[k]]);
            }
        }
        assert forall|j: int, k: int| 0 <= j < k < hyphens(text).len() implies hyphens(text)[j]
            < hyphens(text)[k] by {
            assert(hyphens(text)[j] == hyphens(before)[j]);
            if k < hyphens(before).len() {
                assert(hyphens(text)[k] == hyphens(before)[k]);
            }
        }
    }
}

/// The characters of `text`, one by one.
fn chars_of(text: &str) -> (r: Vec<char>)
    ensures
        r@ == text@,
{
    let mut chars: Vec<char> = Vec::new();
    for c in it: text.chars()
        invariant
            it.seq() == text@,
            chars@ == text@.take(it.index() as int),
    {
        chars.push(c);
        assert(text@.take(it.index() + 1) =~= text@.take(it.index() as int).push(c));
    }
    assert(text@.take(text@.len() as int) =~= text@);
    chars
}

/// The places of the hyphens in `chars`, in order.
fn find_hyphens(chars: &Vec<char>) -> (r: Vec<usize>)
    ensures
        r@.len() == hyphens(chars@).len(),
        forall|k: int| 0 <= k < r@.len() ==> r@[k] == hyphens(chars@)[k],
{
    let mut at: Vec<usize> = Vec::new();
    let mut i: usize = 0;
    while i < chars.len()
        invariant
            i <= chars.len(),
            at@.len() == hyphens(chars@.take(i as int)).len(),
            forall|k: int| 0 <= k < at@.len() ==> at@[k] == hyphens(chars@.take(i as int))[k],
        decreases chars.len() - i,
    {
        assert(chars@.take(i + 1).drop_last() =~= chars@.take(i as int));
        if chars[i] == '-' {
            at.push(i);
        }
        i = i + 1;
    }
    assert(chars@.take(chars.len() as int) =~= chars@);
    at
}

/// The number that the characters of `chars` from `from` to before `to` are in decimal, if
/// they are digits all.
fn read_number(chars: &Vec<char>, from: usize, to: usize) -> (r: Option<u16>)
    requires
        from <= to <= chars.len(),
        to - from <= 4,
    ensures
        r is Some <==> all_digits(chars@.subrange(from as int, to as int)),
        r matches Some(n) ==> n == number(chars@.subrange(from as int, to as int)),
{
    let ghost text = chars@.subrange(from as int, to as int);
    let mut n: u16 = 0;
    let mut i: usize = from;
    while i < to
        invariant
            from <= i <= to <= chars.len(),
            to - from <= 4,
            text == chars@.subrange(from as int, to as int),
            all_digits(text.take(i - from)),
            n == number(text.take(i - from)),
            i - from >= 0 && (i - from == 0 ==> n == 0),
            i - from <= 1 ==> n <= 9,
            i - from <= 2 ==> n <= 99,
            i - from <= 3 ==> n <= 999,
            n <= 9999,
        decreases to - i,
    {
        let c = chars[i];
        assert(c == text[i - from]);
        if c < '0' || c > '9' {
            assert(!is_digit(text[i - from]));
            return None;
        }
        assert(text.take(i + 1 - from).drop_last() =~= text.take(i - from));
        n = n * 10 + (c as u32 - '0' as u32) as u16;
        i = i + 1;
    }
    assert(text.take(to - from) =~= text);
    Some(n)
}

impl Date {
    /// The date that `text` names in the form `YYYY-MM-DD`: a year of four digits, a month of
    /// two and a day of two, with a hyphen between each two. A text of any other form is no
    /// date, nor is one that names a day that the calendar does not have.
    pub fn from_iso(text: &str) -> (r: Result<Date, ParseError>)
        ensures
            match iso_fields(text@) {
                Ok(fields) => r matches Ok(date) && civil(date@) == fields,
                Err(kind) => r matches Err(error) && error.kind == kind && error.src@ == text@
                    && error.reason@ == kind_reason(kind),
            },
    {
        let chars = chars_of(text);
        let at = find_hyphens(&chars);
        proof {
            lemma_hyphens(chars@);
        }
        if at.len() != 2 {
            return Err(ParseError::new(text, ParseErrorKind::ComponentCount));
        }
        let first = at[0];
        let second = at[1];
        assert(first == hyphens(chars@)[0]);
        assert(second == hyphens(chars@)[1]);
        if first != 4 {
            return Err(ParseError::new(text, ParseErrorKind::YearLength));
        }
        if second - first - 1 != 2 {
            return Err(ParseError::new(text, ParseErrorKind::MonthLength));
        }
        if chars.len() - second - 1 != 2 {
            return Err(ParseError::new(text, ParseErrorKind::DayLength));
        }
        let year = match read_number(&chars, 0, first) {
            Some(year) => year,
            None => {
                return Err(ParseError::new(text, ParseErrorKind::Year));
            },
        };
        let month = match read_number(&chars, first + 1, second) {
            Some(month) => month,
            None => {
                return Err(ParseError::new(text, ParseErrorKind::Month));
            },
        };
        let day = match read_number(&chars, second + 1, chars.len()) {
            Some(day) => day,
            None => {
                return Err(ParseError::new(text, ParseErrorKind::Day));
            },
        };
        assert(month <= 99 && day <= 99) by {
            lemma_number_bound(chars@.subrange(first + 1, second as int));
            lemma_number_bound(chars@.subrange(second + 1, chars.len() as int));
        }
        assert(year <= 9999) by {
            lemma_number_bound(chars@.subrange(0, first as int));
        }
        match Date::try_new(year as i16, month as u8, day as u8) {
            Ok(date) => Ok(date),
            Err(error) => Err(ParseError::new(text, ParseErrorKind::InvalidDate(error))),
        }
    }
}

/// A number of `n` digits is less than the `n`-th power of 10.
pub proof fn lemma_number_bound(text: Seq<char>)
    requires
        all_digits(text),
    ensures
        0 <= number(text),
        text.len() <= 1 ==> number(text) <= 9,
        text.len() <= 2 ==> number(text) <= 99,
        text.len() <= 3 ==> number(text) <= 999,
        text.len() <= 4 ==> number(text) <= 9999,
    decreases text.len(),
{
    if text.len() > 0 {
        assert(is_digit(text[text.len() - 1]));
        assert forall|i: int| 0 <= i < text.drop_last().len() implies is_digit(
            #[trigger] text.drop_last()[i],
        ) by {
            assert(text.drop_last()[i] == text[i]);
        }
        lemma_number_bound(text.drop_last());
    }
}

/// Whether the template `format`, read from its character `from` on, has a century (`%C`), a
/// year of its century (`%y`) or an hour of its half-day (`%I`) read while the flag `-` is in
/// force, which has a number read as far as its digits go. `in_token` says whether a percent
/// sign has been read whose token has yet to come, and `minus` whether the flag is in force.
///
/// In a template of `strptime` a flag stays in force for all the tokens that follow it, until
/// another flag takes its place: `0` or a space.
pub open spec fn reads_without_limit(
    format: Seq<char>,
    from: int,
    in_token: bool,
    minus: bool,
) -> bool
    decreases format.len() - from,
{
    if from < 0 || from >= format.len() {
        false
    } else {
        let c = format[from];
        if !in_token {
            reads_without_limit(format, from + 1, c == '%', minus)
        } else if c == '-' {
            reads_without_limit(format, from + 1, true, true)
        } else if c == '0' || c == ' ' {
            reads_without_limit(format, from + 1, true, false)
        } else if c == '.' || c == '3' || c == '6' || c == '9' {
            reads_without_limit(format, from + 1, true, minus)
        } else if minus && (c == 'C' || c == 'y' || c == 'I') {
            true
        } else {
            reads_without_limit(format, from + 1, false, minus)
        }
    }
}

/// Whether `strptime` can read after the template `format` without the risk that a number
/// which it computes with leaves the range of its type.
pub open spec fn supported_template(format: Seq<char>) -> bool {
    !reads_without_limit(format, 0, false, false)
}

/// Whether `strptime` can read after the template `format`.
pub fn is_supported_template(format: &str) -> (r: bool)
    ensures
        r == supported_template(format@),
{
    let mut in_token = false;
    let mut minus = false;
    for c in it: format.chars()
        invariant
            it.seq() == format@,
            reads_without_limit(format@, 0, false, false) == reads_without_limit(
                format@,
                it.index() as int,
                in_token,
                minus,
            ),
    {
        if !in_token {
            in_token = c == '%';
        } else if c == '-' {
            minus = true;
        } else if c == '0' || c == ' ' {
            minus = false;
        } else if c == '.' || c == '3' || c == '6' || c == '9' {
        } else if minus && (c == 'C' || c == 'y' || c == 'I') {
            return false;
        } else {
            in_token = false;
        }
    }
    true
}

/// What `strptime` reads from `text` after the template `format`: the year, the month and the
/// day, which need not name a day of the calendar, or nothing where the text is not what the
/// template describes or the template describes no date.
pub uninterp spec fn strptime_date(text: Seq<char>, format: Seq<char>) -> Option<(int, int, int)>;

/// Reads `text` after the template `format` with `Parser::new`, `Parser::parse` and
/// `RawDateTime::date` of `strptime`, and gives the year, the month and the day that were
/// read, or the words in which `strptime` says what went wrong. The contract gives what is
/// read a name, `strptime_date`, and says nothing of the words. The source of `strptime`
/// computes with the century, the year of the century and the hour of the half-day that it
/// has read, which are of two digits unless the flag `-` is in force: such templates are left
/// out.
#[verifier::external_body]
fn strptime_parse(text: &str, format: &'static str) -> (r: Result<(i16, u8, u8), String>)
    requires
        supported_template(format@),
    ensures
        match r {
            Ok(fields) => strptime_date(text@, format@) == Some(
                (fields.0 as int, fields.1 as int, fields.2 as int),
            ),
            Err(_) => strptime_date(text@, format@) is None,
        },
{
    let date = match strptime::Parser::new(format).parse(text) {
        Ok(raw) => raw.date(),
        Err(error) => Err(error),
    };
    match date {
        Ok(date) => Ok((date.year(), date.month(), date.day())),
        Err(error) => Err(error.kind.to_string()),
    }
}

/// What `Date::parse` makes of the text `text` and the template `format`: the year, the month
/// and the day of the date, or in what the text fails to be one.
pub open spec fn template_fields(text: Seq<char>, format: Seq<char>) -> Result<
    (int, int, int),
    ParseErrorKind,
> {
    if !supported_template(format) {
        Err(ParseErrorKind::UnsupportedTemplate)
    } else {
        match strptime_date(text, format) {
            Some((year, month, day)) => match date_error(year, month, day) {
                Some(error) => Err(ParseErrorKind::InvalidDate(error)),
                None => Ok((year, month, day)),
            },
            None => Err(ParseErrorKind::Template),
        }
    }
}

impl Date {
    /// The date of the year, the month and the day that were read from `text`, or the failure
    /// that stands for the reading's own failure and its words.
    pub fn from_parsed(text: &str, parsed: Result<(i16, u8, u8), String>) -> (r: Result<
        Date,
        ParseError,
    >)
        ensures
            match parsed {
                Ok((year, month, day)) => match date_error(year as int, month as int, day as int) {
                    Some(invalid) => r matches Err(error) && error.src@ == text@ && error.kind
                        == ParseErrorKind::InvalidDate(invalid) && error.reason@ == kind_reason(
                        error.kind,
                    ),
                    None => r matches Ok(date) && civil(date@) == (
                        year as int,
                        month as int,
                        day as int,
                    ),
                },
                Err(words) => r matches Err(error) && error.src@ == text@ && error.kind
                    == ParseErrorKind::Template && error.reason@ == words@,
            },
    {
        match parsed {
            Ok((year, month, day)) => match Date::try_new(year, month, day) {
                Ok(date) => Ok(date),
                Err(invalid) => Err(ParseError::new(text, ParseErrorKind::InvalidDate(invalid))),
            },
            Err(words) => Err(
                ParseError { src: text.to_owned(), kind: ParseErrorKind::Template, reason: words },
            ),
        }
    }

    /// The date that `date_str` names after the template `date_fmt`, as `strptime` reads it.
    pub fn parse(date_str: &str, date_fmt: &'static str) -> (r: Result<Date, ParseError>)
        ensures
            match template_fields(date_str@, date_fmt@) {
                Ok(fields) => r matches Ok(date) && civil(date@) == fields,
                Err(kind) => r matches Err(error) && error.kind == kind && error.src@
                    == date_str@,
            },
    {
        if !is_supported_template(date_fmt) {
            return Err(ParseError::new(date_str, ParseErrorKind::UnsupportedTemplate));
        }
        Date::from_parsed(date_str, strptime_parse(date_str, date_fmt))
    }
}

/// The digits of a number are digits, and the number is what they are in decimal.
pub proof fn lemma_number_of_digits(n: nat)
    ensures
        all_digits(digits(n)),
        number(digits(n)) == n,
        n < 10 ==> digits(n).len() == 1,
        10 <= n < 100 ==> digits(n).len() == 2,
        100 <= n < 1000 ==> digits(n).len() == 3,
        1000 <= n < 10000 ==> digits(n).len() == 4,
    decreases n,
{
    if n >= 10 {
        lemma_number_of_digits(n / 10);
        let before = digits(n / 10);
        let d = digit_char((n % 10) as int);
        assert(digits(n) == before.push(d));
        assert(digits(n).drop_last() =~= before);
        assert(is_digit(d));
        assert forall|i: int| 0 <= i < digits(n).len() implies is_digit(#[trigger] digits(n)[i]) by {
            if i < before.len() {
                assert(digits(n)[i] == before[i]);
            }
        }
    } else {
        assert(digits(n).drop_last() =~= Seq::<char>::empty());
        assert(number(Seq::<char>::empty()) == 0);
        assert(is_digit(digit_char(n as int)));
    }
}

/// Zeros before a number do not change it.
pub proof fn lemma_number_after_zeros(count: int, text: Seq<char>)
    ensures
        number(fill(count, '0') + text) == number(text),
        all_digits(text) ==> all_digits(fill(count, '0') + text),
    decreases text.len(),
{
    let zeros = fill(count, '0');
    if text.len() == 0 {
        assert(zeros + text =~= zeros);
        lemma_number_of_zeros(count);
    } else {
        assert((zeros + text).drop_last() =~= zeros + text.drop_last());
        lemma_number_after_zeros(count, text.drop_last());
    }
    if all_digits(text) {
        assert forall|i: int| 0 <= i < (zeros + text).len() implies is_digit(
            #[trigger] (zeros + text)[i],
        ) by {
            if i >= zeros.len() {
                assert((zeros + text)[i] == text[i - zeros.len()]);
            }
        }
    }
}

/// Zeros alone are the number 0.
pub proof fn lemma_number_of_zeros(count: int)
    ensures
        number(fill(count, '0')) == 0,
    decreases count,
{
    if count > 0 {
        assert(fill(count, '0').drop_last() =~= fill(count - 1, '0'));
        lemma_number_of_zeros(count - 1);
    }
}

/// A number that is not negative and has `width` digits at most, padded with zeros to that
/// width, is `width` digits that are the number in decimal.
pub proof fn lemma_zero_padded(n: int, width: int)
    requires
        (width == 2 && 0 <= n < 100) || (width == 4 && 0 <= n < 10000),
    ensures
        zero_padded(n, width).len() == width,
        all_digits(zero_padded(n, width)),
        number(zero_padded(n, width)) == n,
{
    lemma_number_of_digits(n as nat);
    lemma_number_after_zeros(width - digits(n as nat).len(), digits(n as nat));
}

/// A text of four digits, a hyphen, two digits, a hyphen and two digits is read as the
/// numbers that the digits are.
pub proof fn lemma_iso_form(year: Seq<char>, month: Seq<char>, day: Seq<char>)
    requires
        year.len() == 4,
        month.len() == 2,
        day.len() == 2,
        all_digits(year),
        all_digits(month),
        all_digits(day),
    ensures
        iso_fields(year + seq!['-'] + month + seq!['-'] + day) == match date_error(
            number(year),
            number(month),
            number(day),
        ) {
            Some(error) => Err::<(int, int, int), ParseErrorKind>(
                ParseErrorKind::InvalidDate(error),
            ),
            None => Ok::<(int, int, int), ParseErrorKind>(
                (number(year), number(month), number(day)),
            ),
        },
{
    let text = year + seq!['-'] + month + seq!['-'] + day;
    assert(text.len() == 10);
    assert(text[4] == '-' && text[7] == '-');
    assert(is_digit(year[0]) && is_digit(year[1]) && is_digit(year[2]) && is_digit(year[3]));
    assert(is_digit(month[0]) && is_digit(month[1]));
    assert(is_digit(day[0]) && is_digit(day[1]));
    assert(text[0] == year[0] && text[1] == year[1] && text[2] == year[2] && text[3] == year[3]);
    assert(text[5] == month[0] && text[6] == month[1]);
    assert(text[8] == day[0] && text[9] == day[1]);
    let t9 = text.drop_last();
    let t8 = t9.drop_last();
    let t7 = t8.drop_last();
    let t6 = t7.drop_last();
    let t5 = t6.drop_last();
    let t4 = t5.drop_last();
    let t3 = t4.drop_last();
    let t2 = t3.drop_last();
    let t1 = t2.drop_last();
    let t0 = t1.drop_last();
    assert(hyphens(t0) =~= Seq::<int>::empty());
    assert(hyphens(t1) =~= Seq::<int>::empty());
    assert(hyphens(t2) =~= Seq::<int>::empty());
    assert(hyphens(t3) =~= Seq::<int>::empty());
    assert(hyphens(t4) =~= Seq::<int>::empty());
    assert(hyphens(t5) =~= seq![4int]);
    assert(hyphens(t6) =~= seq![4int]);
    assert(hyphens(t7) =~= seq![4int]);
    assert(hyphens(t8) =~= seq![4int, 7int]);
    assert(hyphens(t9) =~= seq![4int, 7int]);
    assert(hyphens(text) =~= seq![4int, 7int]);
    assert(text.subrange(0, 4) =~= year);
    assert(text.subrange(5, 7) =~= month);
    assert(text.subrange(8, 10) =~= day);
}

impl FromStr for Date {
    type Err = ParseError;

    /// The date that `text` names in the form `YYYY-MM-DD`.
    fn from_str(text: &str) -> (r: Result<Date, ParseError>)
        ensures
            match iso_fields(text@) {
                Ok(fields) => r matches Ok(date) && civil(date@) == fields,
                Err(kind) => r matches Err(error) && error.kind == kind && error.src@ == text@
                    && error.reason@ == kind_reason(kind),
            },
    {
        Date::from_iso(text)
    }
}

} // verus!
