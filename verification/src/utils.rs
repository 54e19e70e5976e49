//! Checking the thresholds of a request, and the text of a cell's label.

use crate::calendar::{civil_date, civil_date_of, formatted_day, formatted_day_of};
use crate::settings::RESPONSE_CACHE_DURATION_SECONDS;
use crate::text::{chars_of, decimal, decimal_string};
use crate::time::{human_time, human_time_text};
use vstd::prelude::*;

verus! {

/// Whether a character is white space, as Unicode defines it.
pub open spec fn is_space(c: char) -> bool {
    let code = c as u32;
    (0x9 <= code <= 0xd) || code == 0x20 || code == 0x85 || code == 0xa0 || code == 0x1680 || (
    0x2000 <= code <= 0x200a) || code == 0x2028 || code == 0x2029 || code == 0x202f || code
        == 0x205f || code == 0x3000
}

/// Whether a character is one of the digits `0` to `9`.
pub open spec fn is_digit(c: char) -> bool {
    0x30 <= c as u32 <= 0x39
}

/// The number that a run of decimal digits writes, however large. There is
/// none for an empty run, nor for one that holds anything but digits.
pub open spec fn digits_value(digits: Seq<char>) -> Option<nat>
    decreases digits.len(),
{
    if digits.len() == 0 || !is_digit(digits.last()) {
        None
    } else {
        let unit = (digits.last() as u32 - 0x30) as nat;
        if digits.len() == 1 {
            Some(unit)
        } else {
            match digits_value(digits.drop_last()) {
                Some(tens) => Some(tens * 10 + unit),
                None => None,
            }
        }
    }
}

/// The number that a text writes: decimal digits, with or without a `+`
/// before them, that make a number that fits in 32 bits.
pub open spec fn number_of(text: Seq<char>) -> Option<u32> {
    let digits = if text.len() > 0 && text[0] == '+' {
        text.skip(1)
    } else {
        text
    };
    match digits_value(digits) {
        Some(value) => if value <= u32::MAX {
            Some(value as u32)
        } else {
            None
        },
        None => None,
    }
}

/// A text without the white space at its start.
pub open spec fn trim_start(text: Seq<char>) -> Seq<char>
    decreases text.len(),
{
    if text.len() > 0 && is_space(text[0]) {
        trim_start(text.skip(1))
    } else {
        text
    }
}

/// A text without the white space at its end.
pub open spec fn trim_end(text: Seq<char>) -> Seq<char>
    decreases text.len(),
{
    if text.len() > 0 && is_space(text.last()) {
        trim_end(text.drop_last())
    } else {
        text
    }
}

/// A text without the white space at its start and at its end.
pub open spec fn trimmed(text: Seq<char>) -> Seq<char> {
    trim_end(trim_start(text))
}

/// Where the first comma stands in `text`, looking from `from` on; the
/// length of `text` where there is none.
pub open spec fn comma_at(text: Seq<char>, from: int) -> int
    decreases text.len() - from,
{
    if from >= text.len() {
        text.len() as int
    } else if text[from] == ',' {
        from
    } else {
        comma_at(text, from + 1)
    }
}

/// What each field of `text` writes, from `from` on. The fields are what
/// stands between the commas: a text with two commas has three fields, and
/// a text without a comma has one. A field counts without the white space
/// around it. One that writes no number is kept, as `None`.
pub open spec fn fields_from(text: Seq<char>, from: int) -> Seq<Option<u32>>
    decreases text.len() - from,
{
    if from < 0 || from > text.len() {
        Seq::empty()
    } else {
        let comma = comma_at(text, from);
        let here = seq![number_of(trimmed(text.subrange(from, comma)))];
        if comma >= text.len() {
            here
        } else {
            proof {
                lemma_comma_bounds(text, from);
            }
            here + fields_from(text, comma + 1)
        }
    }
}

/// The three numbers of exactly three fields that each write a number.
/// There are none where there are fewer or more fields, or where a field
/// writes no number.
pub open spec fn three_numbers(fields: Seq<Option<u32>>) -> Option<Seq<u32>> {
    if fields.len() == 3 && fields[0] is Some && fields[1] is Some && fields[2] is Some {
        Some(seq![fields[0]->0, fields[1]->0, fields[2]->0])
    } else {
        None
    }
}

/// The first comma from `from` on stands at `from` or after it, and within
/// the text or at its end.
pub proof fn lemma_comma_bounds(text: Seq<char>, from: int)
    requires
        0 <= from <= text.len(),
    ensures
        from <= comma_at(text, from) <= text.len(),
        comma_at(text, from) < text.len() ==> text[comma_at(text, from)] == ',',
        forall|i: int| from <= i < comma_at(text, from) ==> text[i] != ',',
    decreases text.len() - from,
{
    if from < text.len() && text[from] != ',' {
        lemma_comma_bounds(text, from + 1);
    }
}

/// The number of commas in `text` from `from` on.
pub open spec fn comma_count(text: Seq<char>, from: int) -> nat
    decreases text.len() - from,
{
    if from < 0 || from >= text.len() {
        0
    } else if text[from] == ',' {
        1 + comma_count(text, from + 1)
    } else {
        comma_count(text, from + 1)
    }
}

/// A text has one field more than it has commas.
pub proof fn lemma_fields_count(text: Seq<char>, from: int)
    requires
        0 <= from <= text.len(),
    ensures
        fields_from(text, from).len() == comma_count(text, from) + 1,
    decreases text.len() - from,
{
    lemma_comma_bounds(text, from);
    let comma = comma_at(text, from);
    lemma_commas_up_to(text, from);
    if comma < text.len() {
        lemma_fields_count(text, comma + 1);
    }
}

/// The commas from `from` on are the first of them, if there is one, and
/// those after it.
proof fn lemma_commas_up_to(text: Seq<char>, from: int)
    requires
        0 <= from <= text.len(),
    ensures
        comma_count(text, from) == if comma_at(text, from) < text.len() {
            1 + comma_count(text, comma_at(text, from) + 1)
        } else {
            0
        },
    decreases text.len() - from,
{
    if from < text.len() && text[from] != ',' {
        lemma_commas_up_to(text, from + 1);
    }
}

/// A text is refused for its count unless it holds exactly two commas, and
/// whenever one of its fields writes no number.
pub proof fn lemma_ranges_need_three_numbers(text: Seq<char>)
    ensures
        comma_count(text, 0) != 2 ==> ranges_outcome(text) == Err::<Seq<u32>, RangesError>(
            RangesError::Count,
        ),
        (exists|i: int| 0 <= i < fields_from(text, 0).len() && fields_from(text, 0)[i] is None)
            ==> ranges_outcome(text) == Err::<Seq<u32>, RangesError>(RangesError::Count),
        ranges_outcome(text) is Ok ==> comma_count(text, 0) == 2 && valid_ranges(
            ranges_outcome(text)->Ok_0,
        ),
{
    lemma_fields_count(text, 0);
}

/// Why a text of thresholds is refused.
#[derive(Clone, Copy, Debug, PartialEq, Eq, Structural)]
pub enum RangesError {
    /// It does not hold exactly three fields that each write a number.
    Count,
    /// The numbers do not fall from one to the next, or the last is zero.
    Order,
    /// A number is over 100.
    Bound,
}

/// What is wrong with the thresholds `numbers`, if anything. The number of
/// thresholds is looked at first, then their order, then their size.
pub open spec fn ranges_fault(numbers: Seq<u32>) -> Option<RangesError> {
    if numbers.len() != 3 {
        Some(RangesError::Count)
    } else if !(numbers[0] > numbers[1] && numbers[1] > numbers[2] && numbers[2] > 0) {
        Some(RangesError::Order)
    } else if numbers[0] > 100 || numbers[1] > 100 || numbers[2] > 100 {
        Some(RangesError::Bound)
    } else {
        None
    }
}

/// The words that go with a refusal.
pub open spec fn ranges_message(fault: RangesError) -> Seq<char> {
    match fault {
        RangesError::Count => "Invalid ranges parameter, must be three comma-separated integers"@,
        RangesError::Order =>
            "Invalid ranges parameter, must be three descending positive integers"@,
        RangesError::Bound => "Invalid ranges parameter, values must be within 0 and 100"@,
    }
}

/// Thresholds that pass: three percentages, each above the next, the last
/// above zero and the first no more than 100.
pub open spec fn valid_ranges(numbers: Seq<u32>) -> bool {
    numbers.len() == 3 && 100 >= numbers[0] > numbers[1] > numbers[2] > 0
}

/// A number read so far, held at 2^32 once it has passed it.
spec fn capped(read: nat) -> nat {
    if read < 0x1_0000_0000 {
        read
    } else {
        0x1_0000_0000
    }
}

fn space(c: char) -> (yes: bool)
    ensures
        yes == is_space(c),
{
    let code: u32 = c as u32;
    (0x9 <= code && code <= 0xd) || code == 0x20 || code == 0x85 || code == 0xa0 || code == 0x1680
        || (0x2000 <= code && code <= 0x200a) || code == 0x2028 || code == 0x2029 || code
        == 0x202f || code == 0x205f || code == 0x3000
}

/// Reads the number that stands in `chars` from `from` up to `to`, white
/// space around it aside.
fn parse_field(chars: &Vec<char>, from: usize, to: usize) -> (number: Option<u32>)
    requires
        from <= to <= chars@.len(),
    ensures
        number == number_of(trimmed(chars@.subrange(from as int, to as int))),
{
    let ghost field = chars@.subrange(from as int, to as int);
    let mut lo: usize = from;
    while lo < to && space(chars[lo])
        invariant
            from <= lo <= to <= chars@.len(),
            trim_start(field) == trim_start(chars@.subrange(lo as int, to as int)),
        decreases to - lo,
    {
        assert(chars@.subrange(lo as int, to as int).skip(1) =~= chars@.subrange(
            lo as int + 1,
            to as int,
        ));
        lo = lo + 1;
    }
    let ghost started = chars@.subrange(lo as int, to as int);
    assert(trim_start(field) == started);
    let mut hi: usize = to;
    while lo < hi && space(chars[hi - 1])
        invariant
            lo <= hi <= to <= chars@.len(),
            trim_end(started) == trim_end(chars@.subrange(lo as int, hi as int)),
        decreases hi - lo,
    {
        assert(chars@.subrange(lo as int, hi as int).drop_last() =~= chars@.subrange(
            lo as int,
            hi as int - 1,
        ));
        hi = hi - 1;
    }
    let ghost text = chars@.subrange(lo as int, hi as int);
    assert(trimmed(field) == text);
    let mut at: usize = lo;
    if lo < hi && chars[lo] == '+' {
        at = lo + 1;
    }
    let ghost digits = chars@.subrange(at as int, hi as int);
    assert(digits =~= if text.len() > 0 && text[0] == '+' {
        text.skip(1)
    } else {
        text
    });
    let first: usize = at;
    let mut value: u64 = 0;
    let mut valid: bool = true;
    while at < hi
        invariant
            first <= at <= hi <= chars@.len(),
            digits == chars@.subrange(first as int, hi as int),
            value <= 0x1_0000_0000,
            at == first ==> valid && value == 0,
            valid && at > first ==> digits_value(chars@.subrange(first as int, at as int))
                is Some,
            valid && at > first ==> value == capped(
                digits_value(chars@.subrange(first as int, at as int))->0,
            ),
            !valid ==> at > first && digits_value(chars@.subrange(first as int, at as int))
                is None,
        decreases hi - at,
    {
        let code: u32 = chars[at] as u32;
        assert(chars@.subrange(first as int, at as int + 1).drop_last() =~= chars@.subrange(
            first as int,
            at as int,
        ));
        assert(chars@.subrange(first as int, at as int + 1).last() == chars@[at as int]);
        if valid && 0x30 <= code && code <= 0x39 {
            let unit: u64 = (code - 0x30) as u64;
            if value < 0x1_0000_0000 {
                value = value * 10 + unit;
                if value > 0x1_0000_0000 {
                    value = 0x1_0000_0000;
                }
            }
        } else {
            valid = false;
        }
        at = at + 1;
    }
    assert(chars@.subrange(first as int, at as int) == digits);
    if valid && first < hi && value <= 0xffff_ffff {
        Some(value as u32)
    } else {
        None
    }
}

/// Finds the first comma in `chars` from `from` on.
fn find_comma(chars: &Vec<char>, from: usize) -> (comma: usize)
    requires
        from <= chars@.len(),
    ensures
        comma == comma_at(chars@, from as int),
        from <= comma <= chars@.len(),
{
    let mut at: usize = from;
    while at < chars.len() && chars[at] != ','
        invariant
            from <= at <= chars@.len(),
            comma_at(chars@, from as int) == comma_at(chars@, at as int),
        decreases chars@.len() - at,
    {
        at = at + 1;
    }
    at
}

/// Reads what each comma-separated field of a text writes.
pub fn parse_fields(text: &str) -> (fields: Vec<Option<u32>>)
    ensures
        fields@ == fields_from(text@, 0),
{
    let chars = chars_of(text);
    let mut fields: Vec<Option<u32>> = Vec::new();
    let mut from: usize = 0;
    let mut open: bool = true;
    while open
        invariant
            chars@ == text@,
            from <= chars@.len(),
            open ==> fields_from(text@, 0) == fields@ + fields_from(text@, from as int),
            !open ==> fields_from(text@, 0) == fields@,
        decreases chars@.len() - from + if open { 1nat } else { 0nat },
    {
        let comma = find_comma(&chars, from);
        let ghost before = fields@;
        fields.push(parse_field(&chars, from, comma));
        if comma >= chars.len() {
            open = false;
            assert(fields@ =~= before + fields_from(text@, from as int));
        } else {
            assert(fields@ + fields_from(text@, comma as int + 1) =~= before + fields_from(
                text@,
                from as int,
            ));
            from = comma + 1;
        }
    }
    fields
}

/// Checks three thresholds: their number, their order, then their size.
pub fn check_ranges(numbers: &Vec<u32>) -> (fault: Option<RangesError>)
    ensures
        fault == ranges_fault(numbers@),
        fault is None <==> valid_ranges(numbers@),
{
    if numbers.len() != 3 {
        Some(RangesError::Count)
    } else if !(numbers[0] > numbers[1] && numbers[1] > numbers[2] && numbers[2] > 0) {
        Some(RangesError::Order)
    } else if numbers[0] > 100 || numbers[1] > 100 || numbers[2] > 100 {
        Some(RangesError::Bound)
    } else {
        None
    }
}

/// Writes the words that go with a refusal.
pub fn ranges_error_text(fault: &RangesError) -> (text: String)
    ensures
        text@ == ranges_message(*fault),
{
    match fault {
        RangesError::Count => String::from_str(
            "Invalid ranges parameter, must be three comma-separated integers",
        ),
        RangesError::Order => String::from_str(
            "Invalid ranges parameter, must be three descending positive integers",
        ),
        RangesError::Bound => String::from_str(
            "Invalid ranges parameter, values must be within 0 and 100",
        ),
    }
}

/// What a text of thresholds comes to: its three numbers, or the reason
/// for which it is refused. The text must hold exactly three fields between
/// its commas, and each must write a number; then each number must be above
/// the next and the last above zero; then none may be over 100.
pub open spec fn ranges_outcome(text: Seq<char>) -> Result<Seq<u32>, RangesError> {
    match three_numbers(fields_from(text, 0)) {
        None => Err(RangesError::Count),
        Some(numbers) => match ranges_fault(numbers) {
            Some(fault) => Err(fault),
            None => Ok(numbers),
        },
    }
}

/// Reads the thresholds of a request and checks them.
pub fn read_ranges(text: &str) -> (ranges: Result<Vec<u32>, RangesError>)
    ensures
        match ranges_outcome(text@) {
            Ok(numbers) => ranges is Ok && ranges->Ok_0@ == numbers,
            Err(fault) => ranges == Err::<Vec<u32>, RangesError>(fault),
        },
        ranges matches Ok(numbers) ==> valid_ranges(numbers@),
{
    let fields = parse_fields(text);
    if fields.len() != 3 {
        return Err(RangesError::Count);
    }
    let mut numbers: Vec<u32> = Vec::new();
    match (fields[0], fields[1], fields[2]) {
        (Some(first), Some(second), Some(third)) => {
            numbers.push(first);
            numbers.push(second);
            numbers.push(third);
        },
        _ => {
            return Err(RangesError::Count);
        },
    }
    assert(numbers@ =~= three_numbers(fields@)->0);
    match check_ranges(&numbers) {
        None => Ok(numbers),
        Some(fault) => Err(fault),
    }
}

/// Reads the thresholds of a request and checks them. The text must hold
/// exactly three numbers, with a comma after the first and after the second,
/// each above the next, the last above zero and none over 100.
pub fn validate_ranges(ranges_str: &str) -> (ranges: Result<Vec<u32>, String>)
    ensures
        match ranges_outcome(ranges_str@) {
            Ok(numbers) => ranges is Ok && ranges->Ok_0@ == numbers,
            Err(fault) => ranges is Err && ranges->Err_0@ == ranges_message(fault),
        },
        ranges matches Ok(numbers) ==> valid_ranges(numbers@),
{
    match read_ranges(ranges_str) {
        Ok(numbers) => Ok(numbers),
        Err(fault) => Err(ranges_error_text(&fault)),
    }
}

/// The ending that makes a day of the month an ordinal, as in 1st, 2nd,
/// 3rd, 4th, but 11th, 12th and 13th.
pub open spec fn day_suffix(day: nat) -> Seq<char> {
    if day % 10 == 1 && day != 11 {
        "st"@
    } else if day % 10 == 2 && day != 12 {
        "nd"@
    } else if day % 10 == 3 && day != 13 {
        "rd"@
    } else {
        "th"@
    }
}

/// The ending that makes a day of the month an ordinal.
pub fn format_day_suffix(day: u32) -> (suffix: &'static str)
    ensures
        suffix@ == day_suffix(day as nat),
{
    let last = day % 10;
    if last == 1 && day != 11 {
        "st"
    } else if last == 2 && day != 12 {
        "nd"
    } else if last == 3 && day != 13 {
        "rd"
    } else {
        "th"
    }
}

/// The label of the cell of a day with `seconds` of activity, where
/// `date_text` writes the month and the day, and `day_of_month` is that day.
pub open spec fn cell_label_text(seconds: u32, date_text: Seq<char>, day_of_month: u32) -> Seq<
    char,
> {
    if seconds > 0 {
        human_time_text(seconds as nat) + " on "@ + date_text + day_suffix(day_of_month as nat)
    } else {
        "No activity on "@ + date_text + day_suffix(day_of_month as nat)
    }
}

/// Writes the label of a cell from the text of its date.
pub fn cell_label(seconds: u32, date_text: &str, day_of_month: u32) -> (label: String)
    ensures
        label@ == cell_label_text(seconds, date_text@, day_of_month),
{
    let mut label = if seconds > 0 {
        let mut start = human_time(seconds);
        start.append(" on ");
        start
    } else {
        String::from_str("No activity on ")
    };
    label.append(date_text);
    label.append(format_day_suffix(day_of_month));
    label
}

/// The format in which a label writes its date: the name of the month and
/// the day of the month.
pub const LABEL_DATE_FORMAT: &'static str = "%B %-d";

/// The label of the cell of a calendar day with `seconds` of activity.
/// There is none for a day number that the calendar does not reach.
pub open spec fn cell_label_of(day: i32, seconds: u32) -> Option<Seq<char>> {
    match (formatted_day_of(day, LABEL_DATE_FORMAT@), civil_date_of(day)) {
        (Some(date_text), Some(date)) => Some(cell_label_text(seconds, date_text, date.2)),
        _ => None,
    }
}

/// Writes the label of the cell of a calendar day, as in `1h 5m on March
/// 7th` or `No activity on March 8th`. There is no label for a day number
/// that the calendar does not reach.
pub fn format_cell_label(day: i32, seconds: u32) -> (label: Option<String>)
    ensures
        match cell_label_of(day, seconds) {
            Some(written) => label is Some && label->0@ == written,
            None => label is None,
        },
{
    let date_text = formatted_day(day, LABEL_DATE_FORMAT);
    let date = civil_date(day);
    if date_text.is_none() || date.is_none() {
        return None;
    }
    Some(cell_label(seconds, date_text.unwrap().as_str(), date.unwrap().2))
}

/// The value of the header that tells clients how long they may keep a
/// response.
pub open spec fn cache_control_text(seconds: nat) -> Seq<char> {
    "public, max-age="@ + decimal(seconds)
}

/// The headers of a response with a body of the given content type: the
/// content type, and how long the response may be kept, which is as long as
/// the service itself keeps it.
pub fn build_headers(content_type: &str) -> (headers: Vec<(String, String)>)
    ensures
        headers@.len() == 2,
        headers@[0].0@ == "content-type"@,
        headers@[0].1@ == content_type@,
        headers@[1].0@ == "cache-control"@,
        headers@[1].1@ == cache_control_text(RESPONSE_CACHE_DURATION_SECONDS as nat),
{
    let mut headers: Vec<(String, String)> = Vec::new();
    headers.push((String::from_str("content-type"), String::from_str(content_type)));
    let mut keep = String::from_str("public, max-age=");
    keep.append(decimal_string(RESPONSE_CACHE_DURATION_SECONDS as u32).as_str());
    headers.push((String::from_str("cache-control"), keep));
    headers
}

} // verus!
