//! Dates as text, after a template in the manner of `strftime`.
//!
//! A template is copied to the output character by character, but for its tokens. A token is
//! a percent sign, then any number of padding flags, then one character that names what to
//! write in the token's place:
//!
//! | Token | Written | Example |
//! | ----- | ------- | ------- |
//! | `%Y` | the year, padded to 4 | `2012` |
//! | `%C` | the year divided by 100, padded to 2 | `20` |
//! | `%y` | the year's remainder by 100, padded to 2 | `12` |
//! | `%m` | the month, padded to 2 | `04` |
//! | `%b`, `%h` | the month's abbreviated name | `Apr` |
//! | `%B` | the month's name | `April` |
//! | `%d` | the day of the month, padded to 2 | `21` |
//! | `%e` | the day of the month, padded to 2 with spaces | `21` |
//! | `%a` | the weekday's abbreviated name | `Sat` |
//! | `%A` | the weekday's name | `Saturday` |
//! | `%w` | the weekday's number, Sunday being 0 | `6` |
//! | `%u` | the weekday's number, Sunday being 7 | `6` |
//! | `%j` | the day of the year, padded to 3 | `112` |
//! | `%U` | the week of the year, padded to 2 | `16` |
//! | `%D` | month, day and year, each padded to 2 | `04/21/2012` |
//! | `%F` | year, month and day | `2012-04-21` |
//! | `%v` | day, abbreviated month and year | `21-Apr-2012` |
//! | `%t` | a tab | |
//! | `%n` | a line feed | |
//! | `%%` | a percent sign | `%` |
//!
//! The padding flags are `0` (pad with zeros, which numbers do where no flag is given), `_`
//! (pad with spaces) and `-` (do not pad). Where a token has several, its last one counts.
//! Any other character after a percent sign is an error.
use crate::calendar::days_before_year;
use crate::calendar::week_number;
use crate::calendar::weekday_number;
use crate::date::Date;
use crate::era::civil;
use crate::text::decimal;
use crate::text::push_decimal;
use crate::text::push_space_padded;
use crate::text::push_zero_padded;
use crate::text::space_padded;
use crate::text::zero_padded;
use crate::weekday::weekday_abbv;
use crate::weekday::weekday_name;
use vstd::prelude::*;
use vstd::std_specs::cmp::PartialEqSpecImpl;
use vstd::string::StringExecFns;

verus! {

/// How a token's number is brought to its width.
#[derive(Copy, Clone, Debug, PartialEq, Eq, Structural)]
pub enum Padding {
    /// As the token does where no flag is given: with zeros, but for `%e`, which pads with
    /// spaces.
    Default,
    /// With zeros.
    Zero,
    /// With spaces.
    Space,
    /// Not at all.
    Suppress,
}

/// A template asked for something that no token stands for.
#[derive(Copy, Clone, Debug, PartialEq, Eq, Structural)]
pub struct FormatError {
    /// The character that followed the percent sign and its flags.
    pub token: char,
}

/// The English name of month `month`, from 1 for January to 12 for December.
pub open spec fn month_name(month: int) -> Seq<char> {
    if month == 1 {
        "January"@
    } else if month == 2 {
        "February"@
    } else if month == 3 {
        "March"@
    } else if month == 4 {
        "April"@
    } else if month == 5 {
        "May"@
    } else if month == 6 {
        "June"@
    } else if month == 7 {
        "July"@
    } else if month == 8 {
        "August"@
    } else if month == 9 {
        "September"@
    } else if month == 10 {
        "October"@
    } else if month == 11 {
        "November"@
    } else {
        "December"@
    }
}

/// The three letters that English shortens the name of month `month` to.
pub open spec fn month_abbv(month: int) -> Seq<char> {
    if month == 1 {
        "Jan"@
    } else if month == 2 {
        "Feb"@
    } else if month == 3 {
        "Mar"@
    } else if month == 4 {
        "Apr"@
    } else if month == 5 {
        "May"@
    } else if month == 6 {
        "Jun"@
    } else if month == 7 {
        "Jul"@
    } else if month == 8 {
        "Aug"@
    } else if month == 9 {
        "Sep"@
    } else if month == 10 {
        "Oct"@
    } else if month == 11 {
        "Nov"@
    } else {
        "Dec"@
    }
}

/// The number `n` as text of at least `width` characters, padded as `padding` says.
pub open spec fn padded(n: int, width: int, padding: Padding) -> Seq<char> {
    match padding {
        Padding::Default | Padding::Zero => zero_padded(n, width),
        Padding::Space => space_padded(n, width),
        Padding::Suppress => decimal(n),
    }
}

/// The quotient of `a` by 100, rounded towards zero.
pub open spec fn quotient_100(a: int) -> int {
    if a >= 0 {
        a / 100
    } else {
        -((-a) / 100)
    }
}

/// What is left of `a` when the hundreds in it are taken away towards zero: a number with
/// the sign of `a`.
pub open spec fn remainder_100(a: int) -> int {
    a - 100 * quotient_100(a)
}

/// The text that stands in the place of the token named `token`, with the padding `padding`,
/// for the date with day number `day`; `None` where there is no such token.
pub open spec fn token_text(day: int, token: char, padding: Padding) -> Option<Seq<char>> {
    let (year, month, day_of_month) = civil(day);
    let weekday = weekday_number(day);
    if token == 'Y' {
        Some(padded(year, 4, padding))
    } else if token == 'C' {
        Some(padded(quotient_100(year), 2, padding))
    } else if token == 'y' {
        Some(padded(remainder_100(year), 2, padding))
    } else if token == 'm' {
        Some(padded(month, 2, padding))
    } else if token == 'b' || token == 'h' {
        Some(month_abbv(month))
    } else if token == 'B' {
        Some(month_name(month))
    } else if token == 'd' {
        Some(padded(day_of_month, 2, padding))
    } else if token == 'e' {
        Some(
            padded(
                day_of_month,
                2,
                if padding == Padding::Default {
                    Padding::Space
                } else {
                    padding
                },
            ),
        )
    } else if token == 'a' {
        Some(weekday_abbv(weekday))
    } else if token == 'A' {
        Some(weekday_name(weekday))
    } else if token == 'w' {
        Some(decimal(weekday))
    } else if token == 'u' {
        Some(
            decimal(
                if weekday == 0 {
                    7
                } else {
                    weekday
                },
            ),
        )
    } else if token == 'j' {
        Some(padded(day - days_before_year(year) + 1, 3, padding))
    } else if token == 'U' {
        Some(padded(week_number(year, day), 2, padding))
    } else if token == 'D' {
        Some(
            zero_padded(month, 2) + seq!['/'] + zero_padded(day_of_month, 2) + seq!['/']
                + zero_padded(year, 2),
        )
    } else if token == 'F' {
        Some(
            zero_padded(year, 4) + seq!['-'] + zero_padded(month, 2) + seq!['-'] + zero_padded(
                day_of_month,
                2,
            ),
        )
    } else if token == 'v' {
        Some(
            space_padded(day_of_month, 2) + seq!['-'] + month_abbv(month) + seq!['-']
                + zero_padded(year, 4),
        )
    } else if token == 't' {
        Some(seq!['\t'])
    } else if token == 'n' {
        Some(seq!['\n'])
    } else if token == '%' {
        Some(seq!['%'])
    } else {
        None
    }
}

/// What a template gives for a date.
pub struct Rendered {
    /// The text, as far as the template could be followed.
    pub text: Seq<char>,
    /// The character that stopped the rendering, if one did: it follows a percent sign and
    /// names no token.
    pub unknown: Option<char>,
}

/// The padding that the flag `c` asks for, if `c` is a flag.
pub open spec fn flag_padding(c: char) -> Option<Padding> {
    if c == '0' {
        Some(Padding::Zero)
    } else if c == '-' {
        Some(Padding::Suppress)
    } else if c == '_' {
        Some(Padding::Space)
    } else {
        None
    }
}

/// What the rest of `format`, from its character `from` on, gives for the date with day number
/// `day`. `in_token` says whether a percent sign has been read whose token has yet to come,
/// and `padding` is the padding that the flags read since then ask for.
pub open spec fn render_from(
    day: int,
    format: Seq<char>,
    from: int,
    in_token: bool,
    padding: Padding,
) -> Rendered
    decreases format.len() - from,
{
    if from < 0 || from >= format.len() {
        Rendered { text: Seq::empty(), unknown: None }
    } else {
        let c = format[from];
        if in_token {
            if let Some(asked) = flag_padding(c) {
                render_from(day, format, from + 1, true, asked)
            } else if let Some(text) = token_text(day, c, padding) {
                let rest = render_from(day, format, from + 1, false, padding);
                Rendered { text: text + rest.text, unknown: rest.unknown }
            } else {
                Rendered { text: Seq::empty(), unknown: Some(c) }
            }
        } else if c == '%' {
            render_from(day, format, from + 1, true, Padding::Default)
        } else {
            let rest = render_from(day, format, from + 1, false, padding);
            Rendered { text: seq![c] + rest.text, unknown: rest.unknown }
        }
    }
}

/// What the template `format` gives for the date with day number `day`.
pub open spec fn render(day: int, format: Seq<char>) -> Rendered {
    render_from(day, format, 0, false, Padding::Default)
}

/// The date with day number `day` in the form `YYYY-MM-DD`: the year in four digits at
/// least, the month in two and the day in two, with a hyphen between each two.
pub open spec fn iso_text(day: int) -> Seq<char> {
    let (year, month, day_of_month) = civil(day);
    zero_padded(year, 4) + seq!['-'] + zero_padded(month, 2) + seq!['-'] + zero_padded(
        day_of_month,
        2,
    )
}

/// The template `%Y-%m-%d` gives the form `YYYY-MM-DD`.
pub proof fn lemma_iso_template(day: int)
    ensures
        render(day, "%Y-%m-%d"@).unknown is None,
        render(day, "%Y-%m-%d"@).text == iso_text(day),
{
    reveal_strlit("%Y-%m-%d");
    reveal_with_fuel(render_from, 10);
    let format = "%Y-%m-%d"@;
    assert(format.len() == 8);
    assert(render(day, format).text =~= iso_text(day));
}

/// Writes `n` onto the end of `out`, with the padding `padding` to `width` characters.
fn push_padded(out: &mut String, n: i32, width: usize, padding: Padding)
    requires
        width <= 16,
    ensures
        final(out)@ == old(out)@ + padded(n as int, width as int, padding),
{
    match padding {
        Padding::Default | Padding::Zero => push_zero_padded(out, n, width),
        Padding::Space => push_space_padded(out, n, width),
        Padding::Suppress => push_decimal(out, n),
    }
}

impl Date {
    /// The English name of this date's month.
    pub fn month_name(&self) -> (r: &'static str)
        ensures
            r@ == month_name(self.spec_month()),
    {
        let month = self.month();
        if month == 1 {
            "January"
        } else if month == 2 {
            "February"
        } else if month == 3 {
            "March"
        } else if month == 4 {
            "April"
        } else if month == 5 {
            "May"
        } else if month == 6 {
            "June"
        } else if month == 7 {
            "July"
        } else if month == 8 {
            "August"
        } else if month == 9 {
            "September"
        } else if month == 10 {
            "October"
        } else if month == 11 {
            "November"
        } else {
            "December"
        }
    }

    /// The three-letter abbreviation of the name of this date's month.
    pub fn month_abbv(&self) -> (r: &'static str)
        ensures
            r@ == month_abbv(self.spec_month()),
    {
        let month = self.month();
        if month == 1 {
            "Jan"
        } else if month == 2 {
            "Feb"
        } else if month == 3 {
            "Mar"
        } else if month == 4 {
            "Apr"
        } else if month == 5 {
            "May"
        } else if month == 6 {
            "Jun"
        } else if month == 7 {
            "Jul"
        } else if month == 8 {
            "Aug"
        } else if month == 9 {
            "Sep"
        } else if month == 10 {
            "Oct"
        } else if month == 11 {
            "Nov"
        } else {
            "Dec"
        }
    }

    /// This date together with the template `format_str`, after which it is to be written.
    pub fn format<'a>(&'a self, format_str: &'a str) -> (r: FormattedDate<'a>)
        ensures
            r.date == *self,
            r.format@ == format_str@,
    {
        FormattedDate { date: *self, format: format_str }
    }

    /// This date in the form `YYYY-MM-DD`.
    pub fn to_string(&self) -> (r: String)
        ensures
            r@ == iso_text(self@),
    {
        proof {
            lemma_iso_template(self@);
        }
        self.format("%Y-%m-%d").to_string()
    }

    /// Writes what stands in the place of the token named `token` onto the end of `out`, or
    /// reports that there is no such token.
    fn write_token(&self, out: &mut String, token: char, padding: Padding) -> (r: Result<
        (),
        FormatError,
    >)
        ensures
            token_text(self@, token, padding) matches Some(text) ==> r is Ok && final(out)@ == old(
                out,
            )@ + text,
            token_text(self@, token, padding) is None ==> r == Err::<(), FormatError>(
                FormatError { token },
            ) && final(out)@ == old(out)@,
    {
        let (year, month, day) = self.ymd();
        let year: i32 = year as i32;
        let month: i32 = month as i32;
        let day: i32 = day as i32;
        if token == 'Y' {
            push_padded(out, year, 4, padding);
        } else if token == 'C' {
            push_padded(out, year / 100, 2, padding);
        } else if token == 'y' {
            push_padded(out, year % 100, 2, padding);
        } else if token == 'm' {
            push_padded(out, month, 2, padding);
        } else if token == 'b' || token == 'h' {
            out.append(self.month_abbv());
        } else if token == 'B' {
            out.append(self.month_name());
        } else if token == 'd' {
            push_padded(out, day, 2, padding);
        } else if token == 'e' {
            push_padded(
                out,
                day,
                2,
                match padding {
                    Padding::Default => Padding::Space,
                    _ => padding,
                },
            );
        } else if token == 'a' {
            out.append(self.weekday().abbv());
        } else if token == 'A' {
            out.append(self.weekday().name());
        } else if token == 'w' {
            push_decimal(out, self.weekday().number() as i32);
        } else if token == 'u' {
            let number = self.weekday().number();
            push_decimal(out, if number == 0 { 7 } else { number as i32 });
        } else if token == 'j' {
            push_padded(out, self.day_of_year() as i32, 3, padding);
        } else if token == 'U' {
            push_padded(out, self.week() as i32, 2, padding);
        } else if token == 'D' {
            push_zero_padded(out, month, 2);
            out.push('/');
            push_zero_padded(out, day, 2);
            out.push('/');
            push_zero_padded(out, year, 2);
            assert(out@ =~= old(out)@ + token_text(self@, token, padding)->0);
        } else if token == 'F' {
            push_zero_padded(out, year, 4);
            out.push('-');
            push_zero_padded(out, month, 2);
            out.push('-');
            push_zero_padded(out, day, 2);
            assert(out@ =~= old(out)@ + token_text(self@, token, padding)->0);
        } else if token == 'v' {
            push_space_padded(out, day, 2);
            out.push('-');
            out.append(self.month_abbv());
            out.push('-');
            push_zero_padded(out, year, 4);
            assert(out@ =~= old(out)@ + token_text(self@, token, padding)->0);
        } else if token == 't' {
            out.push('\t');
            assert(out@ =~= old(out)@ + seq!['\t']);
        } else if token == 'n' {
            out.push('\n');
            assert(out@ =~= old(out)@ + seq!['\n']);
        } else if token == '%' {
            out.push('%');
            assert(out@ =~= old(out)@ + seq!['%']);
        } else {
            return Err(FormatError { token });
        }
        Ok(())
    }
}

/// A date together with the template after which it is to be written.
pub struct FormattedDate<'a> {
    pub date: Date,
    pub format: &'a str,
}

impl<'a> FormattedDate<'a> {
    /// What the template gives for the date.
    pub open spec fn rendered(&self) -> Rendered {
        render(self.date@, self.format@)
    }

    /// Writes the date after the template onto the end of `out`. Where the template holds a
    /// percent sign that no token follows, what came before it has been written, and the
    /// error names the character that stands in the token's place.
    pub fn fmt(&self, out: &mut String) -> (r: Result<(), FormatError>)
        ensures
            final(out)@ == old(out)@ + self.rendered().text,
            match self.rendered().unknown {
                Some(token) => r == Err::<(), FormatError>(FormatError { token }),
                None => r is Ok,
            },
    {
        let mut in_token = false;
        let mut padding = Padding::Default;
        assert(old(out)@ + self.rendered().text == out@ + render_from(
            self.date@,
            self.format@,
            0,
            in_token,
            padding,
        ).text);
        for c in it: self.format.chars()
            invariant
                it.seq() == self.format@,
                old(out)@ + self.rendered().text == out@ + render_from(
                    self.date@,
                    self.format@,
                    it.index() as int,
                    in_token,
                    padding,
                ).text,
                self.rendered().unknown == render_from(
                    self.date@,
                    self.format@,
                    it.index() as int,
                    in_token,
                    padding,
                ).unknown,
        {
            let ghost before = out@;
            let ghost rest = render_from(
                self.date@,
                self.format@,
                it.index() + 1,
                false,
                padding,
            );
            if in_token {
                if c == '0' {
                    padding = Padding::Zero;
                } else if c == '-' {
                    padding = Padding::Suppress;
                } else if c == '_' {
                    padding = Padding::Space;
                } else {
                    in_token = false;
                    match self.date.write_token(out, c, padding) {
                        Ok(()) => {
                            assert(before + (token_text(self.date@, c, padding)->0 + rest.text)
                                =~= out@ + rest.text);
                        },
                        Err(error) => {
                            assert(before + Seq::<char>::empty() =~= out@);
                            return Err(error);
                        },
                    }
                }
            } else if c == '%' {
                in_token = true;
                padding = Padding::Default;
            } else {
                out.push(c);
                assert(before + (seq![c] + rest.text) =~= out@ + rest.text);
            }
        }
        assert(out@ + Seq::<char>::empty() =~= out@);
        Ok(())
    }

    /// The date as text after the template, where the template can be followed to its end.
    pub fn to_string(&self) -> (r: String)
        requires
            self.rendered().unknown is None,
        ensures
            r@ == self.rendered().text,
    {
        let mut out = String::new();
        let _ = self.fmt(&mut out);
        assert(Seq::<char>::empty() + self.rendered().text =~= self.rendered().text);
        out
    }

    /// The date as text after the template, or the character in the template that names no
    /// token.
    pub fn try_to_string(&self) -> (r: Result<String, FormatError>)
        ensures
            match self.rendered().unknown {
                Some(token) => r == Err::<String, FormatError>(FormatError { token }),
                None => r matches Ok(text) && text@ == self.rendered().text,
            },
    {
        let mut out = String::new();
        assert(Seq::<char>::empty() + self.rendered().text =~= self.rendered().text);
        match self.fmt(&mut out) {
            Ok(()) => Ok(out),
            Err(error) => Err(error),
        }
    }
}

impl<'a, 'b> PartialEqSpecImpl<&'b str> for FormattedDate<'a> {
    open spec fn obeys_eq_spec() -> bool {
        true
    }

    open spec fn eq_spec(&self, other: &&'b str) -> bool {
        self.rendered().unknown is None && self.rendered().text == other@
    }
}

impl<'a, 'b> PartialEq<&'b str> for FormattedDate<'a> {
    /// Whether the template can be followed to its end and gives the text `other` for the
    /// date.
    fn eq(&self, other: &&'b str) -> (r: bool) {
        match self.try_to_string() {
            Ok(text) => text == (*other).to_owned(),
            Err(_) => false,
        }
    }
}

} // verus!
