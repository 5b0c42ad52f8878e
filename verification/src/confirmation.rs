//! The confirmation message: the text that announces an enrollment, and the
//! way back from that text to the responses it carries.

use crate::text::{
    delimiter_at, find_delimiter, first_delimiter, lemma_first_delimiter,
    lemma_first_delimiter_is, lemma_first_newline_is, lines, split_lines, strip_cr, to_chars,
    trim_leading_quotes, trim_quotes, trim_quotes_span, trim_trailing_quotes, Span,
};
use vstd::prelude::*;

verus! {

/// The five responses of an enrollment form, as plain values.
pub struct ResponseData {
    pub name: Seq<char>,
    pub email: Seq<char>,
    pub interests: Seq<char>,
    pub university: Seq<char>,
    pub email_distro: Seq<char>,
}

/// `lines` joined by line feeds, with none after the last.
pub open spec fn join_lines(lines: Seq<Seq<char>>) -> Seq<char>
    decreases lines.len(),
{
    if lines.len() == 0 {
        Seq::empty()
    } else if lines.len() == 1 {
        lines[0]
    } else {
        lines[0] + seq!['\n'] + join_lines(lines.drop_first())
    }
}

/// One line of the message: a label, the delimiter, and the response in
/// double quotes.
pub open spec fn field_line(label: Seq<char>, value: Seq<char>) -> Seq<char> {
    label + seq![':', ' ', '"'] + value + seq!['"']
}

/// The six lines of the message, in their fixed order.
pub open spec fn message_lines(r: ResponseData) -> Seq<Seq<char>> {
    seq![
        "Enrolling new student:"@,
        field_line("Name"@, r.name),
        field_line("Email"@, r.email),
        field_line("Interests"@, r.interests),
        field_line("University"@, r.university),
        field_line("Add to email distro"@, r.email_distro),
    ]
}

/// The confirmation message for the responses `r`.
pub open spec fn message(r: ResponseData) -> Seq<char> {
    join_lines(message_lines(r))
}

/// Appends one line of the message to `out`.
fn push_field(out: &mut String, label: &str, value: &str)
    ensures
        final(out)@ == old(out)@ + seq!['\n'] + field_line(label@, value@),
{
    proof {
        reveal_strlit("\n");
        reveal_strlit(": \"");
        reveal_strlit("\"");
        assert("\n"@ =~= seq!['\n']);
        assert(": \""@ =~= seq![':', ' ', '"']);
        assert("\""@ =~= seq!['"']);
    }
    out.append("\n");
    out.append(label);
    out.append(": \"");
    out.append(value);
    out.append("\"");
    proof {
        assert(out@ =~= old(out)@ + seq!['\n'] + field_line(label@, value@));
    }
}

/// The confirmation message for five responses.
pub fn compose(name: &str, email: &str, interests: &str, university: &str, email_distro: &str) -> (out:
    String)
    ensures
        out@ == message(
            ResponseData {
                name: name@,
                email: email@,
                interests: interests@,
                university: university@,
                email_distro: email_distro@,
            },
        ),
{
    let mut out = String::from_str("Enrolling new student:");
    push_field(&mut out, "Name", name);
    push_field(&mut out, "Email", email);
    push_field(&mut out, "Interests", interests);
    push_field(&mut out, "University", university);
    push_field(&mut out, "Add to email distro", email_distro);
    proof {
        let r = ResponseData {
            name: name@,
            email: email@,
            interests: interests@,
            university: university@,
            email_distro: email_distro@,
        };
        let l = message_lines(r);
        reveal_with_fuel(join_lines, 7);
        let l1 = l.drop_first();
        let l2 = l1.drop_first();
        let l3 = l2.drop_first();
        let l4 = l3.drop_first();
        let l5 = l4.drop_first();
        assert(l5.len() == 1);
        assert(join_lines(l5) == l[5]);
        assert(join_lines(l4) == l[4] + seq!['\n'] + l[5]);
        assert(join_lines(l3) == l[3] + seq!['\n'] + join_lines(l4));
        assert(join_lines(l2) == l[2] + seq!['\n'] + join_lines(l3));
        assert(join_lines(l1) == l[1] + seq!['\n'] + join_lines(l2));
        assert(join_lines(l) == l[0] + seq!['\n'] + join_lines(l1));
        assert(out@ =~= join_lines(l));
    }
    out
}

/// What is wrong with a text that is no confirmation message.
#[derive(Clone, Copy, Debug, PartialEq, Eq, Structural)]
pub enum ParseError {
    /// The text ends before the line of a response.
    MissingLine,
    /// The line of a response holds no delimiter, so no value.
    MissingValue,
}

/// The response that a line carries: all that follows the first delimiter,
/// without the double quotes around it. A line without a delimiter carries
/// none.
pub open spec fn response_value(line: Seq<char>) -> Option<Seq<char>> {
    let d = first_delimiter(line);
    if d < line.len() {
        Some(trim_quotes(line.skip(d + 2)))
    } else {
        None
    }
}

/// The response on line `k` of `lines`.
pub open spec fn response_at(lines: Seq<Seq<char>>, k: int) -> Result<Seq<char>, ParseError> {
    if k >= lines.len() {
        Err(ParseError::MissingLine)
    } else {
        match response_value(lines[k]) {
            Some(value) => Ok(value),
            None => Err(ParseError::MissingValue),
        }
    }
}

/// The responses that the text `content` carries. The first line is the
/// header and is not looked at; the next five carry, in this order, name,
/// email, interests, university and the opt-in marker. The first of them that
/// is missing, or holds no value, decides the error.
pub open spec fn parsed(content: Seq<char>) -> Result<ResponseData, ParseError> {
    let l = lines(content);
    match response_at(l, 1) {
        Err(e) => Err(e),
        Ok(name) => match response_at(l, 2) {
            Err(e) => Err(e),
            Ok(email) => match response_at(l, 3) {
                Err(e) => Err(e),
                Ok(interests) => match response_at(l, 4) {
                    Err(e) => Err(e),
                    Ok(university) => match response_at(l, 5) {
                        Err(e) => Err(e),
                        Ok(email_distro) => Ok(
                            ResponseData { name, email, interests, university, email_distro },
                        ),
                    },
                },
            },
        },
    }
}

/// Whether the text `content` is a confirmation message: it has a header
/// line and five more, each with a delimiter.
pub open spec fn well_formed(content: Seq<char>) -> bool {
    parsed(content) is Ok
}

/// The five responses of an enrollment form.
#[derive(Debug)]
pub struct Responses {
    pub name: String,
    pub email: String,
    pub interests: String,
    pub university: String,
    pub email_distro: String,
}

impl View for Responses {
    type V = ResponseData;

    open spec fn view(&self) -> ResponseData {
        ResponseData {
            name: self.name@,
            email: self.email@,
            interests: self.interests@,
            university: self.university@,
            email_distro: self.email_distro@,
        }
    }
}

/// Whether `spans` are the lines of `chars`, one span for each line.
pub open spec fn spans_of_lines(chars: Seq<char>, spans: Seq<Span>) -> bool {
    &&& spans.len() == lines(chars).len()
    &&& forall|i: int| 0 <= i < spans.len() ==> (#[trigger] spans[i]).within(chars)
    &&& forall|i: int| 0 <= i < spans.len() ==> (#[trigger] spans[i]).of(chars) == lines(chars)[i]
}

/// What is wrong with line `k` as the line of a response, if anything.
fn response_defect(chars: &Vec<char>, spans: &Vec<Span>, k: usize) -> (out: Option<ParseError>)
    requires
        spans_of_lines(chars@, spans@),
    ensures
        match out {
            None => response_at(lines(chars@), k as int) is Ok,
            Some(e) => response_at(lines(chars@), k as int) == Err::<Seq<char>, ParseError>(e),
        },
{
    if k >= spans.len() {
        return Some(ParseError::MissingLine);
    }
    let line = spans[k];
    assert(line.of(chars@) == lines(chars@)[k as int]);
    if find_delimiter(chars, line) >= line.end {
        Some(ParseError::MissingValue)
    } else {
        None
    }
}

/// The span of the response on line `k`, where `spans` are the lines of
/// `chars`. The line must be there and hold a delimiter.
fn parse_response(chars: &Vec<char>, spans: &Vec<Span>, k: usize) -> (out: Span)
    requires
        spans_of_lines(chars@, spans@),
        response_at(lines(chars@), k as int) is Ok,
    ensures
        out.within(chars@),
        response_at(lines(chars@), k as int) == Ok::<Seq<char>, ParseError>(out.of(chars@)),
{
    let line = spans[k];
    let ghost l = line.of(chars@);
    assert(l == lines(chars@)[k as int]);
    let d = find_delimiter(chars, line);
    proof {
        lemma_first_delimiter(l);
    }
    let rest = Span { start: d + 2, end: line.end };
    assert(rest.of(chars@) =~= l.skip(d - line.start + 2));
    trim_quotes_span(chars, rest)
}

/// The text that `span` covers, as a string of its own.
fn text_of(content: &str, span: Span) -> (out: String)
    requires
        span.within(content@),
    ensures
        out@ == span.of(content@),
{
    String::from_str(content.substring_char(span.start, span.end))
}

/// Tells whether a text is a confirmation message, and what is wrong with
/// it where it is none: the first of the five response lines that is
/// missing, or holds no delimiter, decides.
pub fn validate(content: &str) -> (out: Result<(), ParseError>)
    ensures
        match out {
            Ok(_) => well_formed(content@),
            Err(e) => parsed(content@) == Err::<ResponseData, ParseError>(e),
        },
{
    let chars = to_chars(content);
    let spans = split_lines(&chars);
    let mut k: usize = 1;
    while k <= 5
        invariant
            1 <= k <= 6,
            chars@ == content@,
            spans_of_lines(chars@, spans@),
            forall|j: int| 1 <= j < k ==> (#[trigger] response_at(lines(content@), j)) is Ok,
        decreases 6 - k,
    {
        match response_defect(&chars, &spans, k) {
            Some(e) => {
                return Err(e);
            },
            None => {},
        }
        k = k + 1;
    }
    assert(response_at(lines(content@), 1) is Ok);
    assert(response_at(lines(content@), 2) is Ok);
    assert(response_at(lines(content@), 3) is Ok);
    assert(response_at(lines(content@), 4) is Ok);
    assert(response_at(lines(content@), 5) is Ok);
    Ok(())
}

/// Reads the five responses back out of a confirmation message.
pub fn parse(content: &str) -> (out: Responses)
    requires
        well_formed(content@),
    ensures
        parsed(content@) == Ok::<ResponseData, ParseError>(out@),
{
    let chars = to_chars(content);
    let spans = split_lines(&chars);
    let name = parse_response(&chars, &spans, 1);
    let email = parse_response(&chars, &spans, 2);
    let interests = parse_response(&chars, &spans, 3);
    let university = parse_response(&chars, &spans, 4);
    let email_distro = parse_response(&chars, &spans, 5);
    Responses {
        name: text_of(content, name),
        email: text_of(content, email),
        interests: text_of(content, interests),
        university: text_of(content, university),
        email_distro: text_of(content, email_distro),
    }
}

/// Whether `s` holds no line feed.
pub open spec fn single_line(s: Seq<char>) -> bool {
    forall|i: int| 0 <= i < s.len() ==> s[i] != '\n'
}

/// Whether each of the five responses holds no line feed.
pub open spec fn single_lines(r: ResponseData) -> bool {
    &&& single_line(r.name)
    &&& single_line(r.email)
    &&& single_line(r.interests)
    &&& single_line(r.university)
    &&& single_line(r.email_distro)
}

/// Whether a response comes back unchanged from the message that carries
/// it: it holds no line feed, and neither begins nor ends with a double
/// quote.
pub open spec fn recoverable(s: Seq<char>) -> bool {
    &&& single_line(s)
    &&& s.len() > 0 ==> s[0] != '"' && s.last() != '"'
}

/// Whether each of the five responses is recoverable.
pub open spec fn all_recoverable(r: ResponseData) -> bool {
    &&& recoverable(r.name)
    &&& recoverable(r.email)
    &&& recoverable(r.interests)
    &&& recoverable(r.university)
    &&& recoverable(r.email_distro)
}

/// Lines that hold no line feed and end in no carriage return, the last of
/// them not empty, are the lines of the text that joins them.
pub proof fn lemma_lines_of_joined(l: Seq<Seq<char>>)
    requires
        l.len() > 0,
        forall|i: int| 0 <= i < l.len() ==> single_line(#[trigger] l[i]),
        forall|i: int| 0 <= i < l.len() - 1 ==> strip_cr(#[trigger] l[i]) == l[i],
        l.last().len() > 0,
    ensures
        lines(join_lines(l)) == l,
    decreases l.len(),
{
    let s = join_lines(l);
    if l.len() == 1 {
        assert(single_line(l[0]));
        lemma_first_newline_is(s, s.len() as int);
        assert(lines(s) =~= l);
    } else {
        let rest = l.drop_first();
        assert forall|i: int| 0 <= i < rest.len() implies single_line(#[trigger] rest[i]) by {
            assert(rest[i] == l[i + 1]);
        }
        assert forall|i: int| 0 <= i < rest.len() - 1 implies strip_cr(#[trigger] rest[i])
            == rest[i] by {
            assert(rest[i] == l[i + 1]);
        }
        assert(rest.last() == l.last());
        lemma_lines_of_joined(rest);
        let head = l[0];
        assert(single_line(head));
        let n = head.len() as int;
        assert(s == head + seq!['\n'] + join_lines(rest));
        assert(s[n] == '\n');
        assert forall|j: int| 0 <= j < n implies s[j] != '\n' by {
            assert(s[j] == head[j]);
        }
        lemma_first_newline_is(s, n);
        assert(s.take(n) =~= head);
        assert(s.skip(n + 1) =~= join_lines(rest));
        assert(strip_cr(head) == head);
        assert(lines(s) =~= seq![head] + rest);
        assert(seq![head] + rest =~= l);
    }
}

/// A response that neither begins nor ends with a double quote is what
/// the line made for it carries, under a label that holds no colon.
pub proof fn lemma_response_of_field_line(label: Seq<char>, value: Seq<char>)
    requires
        forall|i: int| 0 <= i < label.len() ==> label[i] != ':',
        value.len() > 0 ==> value[0] != '"' && value.last() != '"',
    ensures
        response_value(field_line(label, value)) == Some(value),
{
    let line = field_line(label, value);
    let n = label.len() as int;
    assert forall|j: int| 0 <= j < n implies !delimiter_at(line, j) by {
        assert(line[j] == label[j]);
    }
    assert(delimiter_at(line, n));
    lemma_first_delimiter_is(line, n);
    let rest = line.skip(n + 2);
    assert(rest =~= seq!['"'] + value + seq!['"']);
    let inner = value + seq!['"'];
    assert(rest.drop_first() =~= inner);
    assert(trim_leading_quotes(rest) == trim_leading_quotes(inner));
    if value.len() == 0 {
        assert(inner.drop_first() =~= value);
        assert(trim_leading_quotes(inner) == trim_leading_quotes(value));
    } else {
        assert(inner[0] == value[0]);
        assert(trim_leading_quotes(inner) == inner);
        assert(inner.drop_last() =~= value);
        assert(trim_trailing_quotes(inner) == trim_trailing_quotes(value));
    }
    assert(trim_quotes(rest) == value);
}

/// None of the five labels holds a colon, and no line of the message, but
/// for the responses in it, holds a line feed.
proof fn lemma_labels()
    ensures
        single_line("Enrolling new student:"@),
        "Enrolling new student:"@.len() == 22,
        "Enrolling new student:"@.last() == ':',
        forall|i: int| 0 <= i < "Name"@.len() ==> "Name"@[i] != ':' && "Name"@[i] != '\n',
        forall|i: int| 0 <= i < "Email"@.len() ==> "Email"@[i] != ':' && "Email"@[i] != '\n',
        forall|i: int|
            0 <= i < "Interests"@.len() ==> "Interests"@[i] != ':' && "Interests"@[i] != '\n',
        forall|i: int|
            0 <= i < "University"@.len() ==> "University"@[i] != ':' && "University"@[i] != '\n',
        forall|i: int|
            0 <= i < "Add to email distro"@.len() ==> "Add to email distro"@[i] != ':'
                && "Add to email distro"@[i] != '\n',
{
    reveal_strlit("Enrolling new student:");
    reveal_strlit("Name");
    reveal_strlit("Email");
    reveal_strlit("Interests");
    reveal_strlit("University");
    reveal_strlit("Add to email distro");
}

/// A line made for a response without line feeds holds none, and ends in a
/// double quote.
proof fn lemma_field_line_shape(label: Seq<char>, value: Seq<char>)
    requires
        forall|i: int| 0 <= i < label.len() ==> label[i] != '\n',
        single_line(value),
    ensures
        single_line(field_line(label, value)),
        field_line(label, value).len() > 0,
        strip_cr(field_line(label, value)) == field_line(label, value),
{
    let line = field_line(label, value);
    let n = label.len() as int;
    assert forall|i: int| 0 <= i < line.len() implies line[i] != '\n' by {
        if i < n {
            assert(line[i] == label[i]);
        } else if n + 3 <= i < n + 3 + value.len() {
            assert(line[i] == value[i - n - 3]);
        }
    }
    assert(line.last() == '"');
}

/// The message for responses that hold no line feed has exactly six lines:
/// the header, then one line for each response, in the fixed order.
pub proof fn lemma_message_has_six_lines(r: ResponseData)
    requires
        single_lines(r),
    ensures
        lines(message(r)) == message_lines(r),
        lines(message(r)).len() == 6,
{
    let l = message_lines(r);
    lemma_labels();
    lemma_field_line_shape("Name"@, r.name);
    lemma_field_line_shape("Email"@, r.email);
    lemma_field_line_shape("Interests"@, r.interests);
    lemma_field_line_shape("University"@, r.university);
    lemma_field_line_shape("Add to email distro"@, r.email_distro);
    assert(strip_cr(l[0]) == l[0]);
    lemma_lines_of_joined(l);
}

/// Reading the message made for five recoverable responses gives those
/// responses back.
pub proof fn lemma_parse_recovers(r: ResponseData)
    requires
        all_recoverable(r),
    ensures
        parsed(message(r)) == Ok::<ResponseData, ParseError>(r),
{
    lemma_message_has_six_lines(r);
    lemma_labels();
    lemma_response_of_field_line("Name"@, r.name);
    lemma_response_of_field_line("Email"@, r.email);
    lemma_response_of_field_line("Interests"@, r.interests);
    lemma_response_of_field_line("University"@, r.university);
    lemma_response_of_field_line("Add to email distro"@, r.email_distro);
    let l = lines(message(r));
    assert(l[1] == field_line("Name"@, r.name));
    assert(l[2] == field_line("Email"@, r.email));
    assert(l[3] == field_line("Interests"@, r.interests));
    assert(l[4] == field_line("University"@, r.university));
    assert(l[5] == field_line("Add to email distro"@, r.email_distro));
}

} // verus!
