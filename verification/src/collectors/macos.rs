//! Parsing of the macOS battery report (`pmset -g batt`) and of the CPU line of
//! `top -l 1`, and the choice of the temperature sensor to show.
use vstd::prelude::*;

use crate::text::{
    chars_of, contains_chars, has_substring, is_ascii_digit, lemma_split_on_len, parse_unsigned,
    parsed_unsigned, split_chars, split_on, string_of, suffix_from, trim_chars, trimmed, views_of,
};

verus! {

/// What the battery report says.
#[derive(Clone, Debug, PartialEq)]
pub struct BatteryReading {
    /// The charge in percent, 0 to 100.
    pub percent: u8,
    pub power_source: Option<String>,
    pub charging: Option<bool>,
}

/// `l` without a final carriage return.
pub open spec fn strip_cr(l: Seq<char>) -> Seq<char> {
    if l.len() > 0 && l.last() == '\r' {
        l.drop_last()
    } else {
        l
    }
}

/// The line of piece `i` of `parts`: a carriage return before its line feed is removed;
/// the last piece has no line feed after it and is kept as it is.
pub open spec fn line_of_piece(parts: Seq<Seq<char>>, i: int) -> Seq<char> {
    if i < parts.len() - 1 {
        strip_cr(parts[i])
    } else {
        parts[i]
    }
}

/// The lines of `s` as `str::lines` gives them: split at line feeds, a final empty
/// piece dropped, and a carriage return right before a line feed removed.
pub open spec fn text_lines(s: Seq<char>) -> Seq<Seq<char>> {
    let parts = split_on(s, '\n');
    let n = if parts.last().len() == 0 {
        parts.len() - 1
    } else {
        parts.len() as int
    };
    Seq::new(n as nat, |i: int| line_of_piece(parts, i))
}

/// The position of the first line holding `c`, or the number of lines.
pub open spec fn first_line_with(lines: Seq<Seq<char>>, c: char, i: int) -> int
    decreases lines.len() - i,
{
    if i < 0 || i >= lines.len() {
        lines.len() as int
    } else if lines[i].contains(c) {
        i
    } else {
        first_line_with(lines, c, i + 1)
    }
}

/// The ASCII digits at the end of `s`.
pub open spec fn trailing_digits(s: Seq<char>) -> Seq<char>
    decreases s.len(),
{
    if s.len() > 0 && is_ascii_digit(s.last()) {
        trailing_digits(s.drop_last()).push(s.last())
    } else {
        Seq::empty()
    }
}

/// The power source: the text between the first pair of quotes of the first line,
/// trimmed, unless that is empty.
pub open spec fn power_source_of(lines: Seq<Seq<char>>) -> Option<Seq<char>> {
    if lines.len() == 0 {
        None
    } else {
        let parts = split_on(lines[0], '\'');
        if parts.len() < 2 || trimmed(parts[1]).len() == 0 {
            None
        } else {
            Some(trimmed(parts[1]))
        }
    }
}

/// Whether the battery charges, from the second `;`-separated field of its line.
pub open spec fn charging_of(line: Seq<char>) -> Option<bool> {
    let parts = split_on(line, ';');
    if parts.len() < 2 {
        None
    } else {
        let state = trimmed(parts[1]);
        if state == "charging"@ || state == "finishing charge"@ {
            Some(true)
        } else if state == "discharging"@ || state == "charged"@ {
            Some(false)
        } else {
            None
        }
    }
}

/// The reading of a report: the first line with a `%` gives the percentage, the
/// digits right before its first `%`, which must be at most 100; no such line, or no
/// such number, means no battery.
pub open spec fn battery_of(report: Seq<char>) -> Option<(u8, Option<Seq<char>>, Option<bool>)> {
    let lines = text_lines(report);
    let i = first_line_with(lines, '%', 0);
    if i >= lines.len() {
        None
    } else {
        let line = lines[i];
        match parsed_unsigned(trailing_digits(split_on(line, '%')[0]), 255) {
            None => None,
            Some(p) => if p > 100 {
                None
            } else {
                Some((p as u8, power_source_of(lines), charging_of(line)))
            },
        }
    }
}

fn strip_carriage_return(l: Vec<char>) -> (r: Vec<char>)
    ensures
        r@ == strip_cr(l@),
{
    let mut l = l;
    if l.len() > 0 && l[l.len() - 1] == '\r' {
        l.pop();
    }
    l
}

fn lines_of(s: &Vec<char>) -> (r: Vec<Vec<char>>)
    ensures
        views_of(r@) == text_lines(s@),
{
    let parts = split_chars(s, '\n');
    proof {
        lemma_split_on_len(s@, '\n');
    }
    let ghost all = views_of(parts@);
    let count: usize = if parts[parts.len() - 1].len() == 0 {
        parts.len() - 1
    } else {
        parts.len()
    };
    assert(all.last() == parts@[parts@.len() - 1]@);
    let mut out: Vec<Vec<char>> = Vec::new();
    let mut i: usize = 0;
    while i < count
        invariant
            count <= parts@.len(),
            all == views_of(parts@),
            all.len() == parts@.len(),
            i <= count,
            views_of(out@) == Seq::new(i as nat, |k: int| line_of_piece(all, k)),
        decreases count - i,
    {
        let ghost before = views_of(out@);
        let copied = copy_chars(&parts[i]);
        let line = if i + 1 < parts.len() {
            strip_carriage_return(copied)
        } else {
            copied
        };
        assert(all[i as int] == parts@[i as int]@);
        assert(line@ == line_of_piece(all, i as int));
        let ghost lv = line@;
        out.push(line);
        assert(views_of(out@) =~= before.push(lv));
        assert(views_of(out@) =~= Seq::new((i + 1) as nat, |k: int| line_of_piece(all, k)));
        i = i + 1;
    }
    assert(views_of(out@) =~= text_lines(s@));
    out
}

fn copy_chars(v: &Vec<char>) -> (r: Vec<char>)
    ensures
        r@ == v@,
{
    let mut r: Vec<char> = Vec::new();
    let mut i: usize = 0;
    while i < v.len()
        invariant
            i <= v@.len(),
            r@ == v@.take(i as int),
        decreases v@.len() - i,
    {
        r.push(v[i]);
        i = i + 1;
        assert(r@ =~= v@.take(i as int));
    }
    assert(v@.take(i as int) =~= v@);
    r
}

fn has_char(line: &Vec<char>, c: char) -> (r: bool)
    ensures
        r == line@.contains(c),
{
    let mut i: usize = 0;
    while i < line.len()
        invariant
            i <= line@.len(),
            forall|k: int| 0 <= k < i ==> line@[k] != c,
        decreases line@.len() - i,
    {
        if line[i] == c {
            assert(line@[i as int] == c);
            return true;
        }
        i = i + 1;
    }
    false
}

fn digits_at_end(s: &Vec<char>) -> (r: Vec<char>)
    ensures
        r@ == trailing_digits(s@),
{
    let mut start: usize = s.len();
    assert(s@.take(start as int) =~= s@);
    assert(s@.skip(start as int) =~= Seq::<char>::empty());
    while start > 0 && '0' <= s[start - 1] && s[start - 1] <= '9'
        invariant
            start <= s@.len(),
            trailing_digits(s@) == trailing_digits(s@.take(start as int)) + s@.skip(start as int),
        decreases start,
    {
        let ghost t = s@.take(start as int);
        assert(t.drop_last() =~= s@.take(start - 1));
        assert(t.last() == s@[start - 1]);
        assert(s@.skip(start - 1) =~= seq![s@[start - 1]] + s@.skip(start as int));
        assert(trailing_digits(t) == trailing_digits(s@.take(start - 1)).push(s@[start - 1]));
        assert(trailing_digits(s@.take(start - 1)).push(s@[start - 1]) + s@.skip(start as int)
            =~= trailing_digits(s@.take(start - 1)) + s@.skip(start - 1));
        start = start - 1;
    }
    if start > 0 {
        assert(s@.take(start as int).last() == s@[start - 1]);
    }
    assert(trailing_digits(s@.take(start as int)) =~= Seq::<char>::empty());
    assert(Seq::<char>::empty() + s@.skip(start as int) =~= s@.skip(start as int));
    let mut r: Vec<char> = Vec::new();
    let mut i: usize = start;
    while i < s.len()
        invariant
            start <= i <= s@.len(),
            r@ == s@.subrange(start as int, i as int),
        decreases s@.len() - i,
    {
        r.push(s[i]);
        i = i + 1;
        assert(r@ =~= s@.subrange(start as int, i as int));
    }
    assert(s@.subrange(start as int, i as int) =~= s@.skip(start as int));
    r
}

fn source_of(lines: &Vec<Vec<char>>) -> (r: Option<String>)
    ensures
        match r {
            Some(t) => power_source_of(views_of(lines@)) == Some(t@),
            None => power_source_of(views_of(lines@)) is None,
        },
{
    if lines.len() == 0 {
        return None;
    }
    assert(views_of(lines@)[0] == lines@[0]@);
    let parts = split_chars(&lines[0], '\'');
    if parts.len() < 2 {
        return None;
    }
    assert(views_of(parts@)[1] == parts@[1]@);
    let t = trim_chars(&parts[1]);
    if t.len() == 0 {
        return None;
    }
    Some(string_of(&t))
}

fn same_chars(a: &Vec<char>, b: &str) -> (r: bool)
    ensures
        r == (a@ == b@),
{
    let bc = chars_of(b);
    if a.len() != bc.len() {
        return false;
    }
    let mut i: usize = 0;
    while i < a.len()
        invariant
            i <= a@.len(),
            bc@ == b@,
            a@.len() == bc@.len(),
            forall|k: int| 0 <= k < i ==> a@[k] == bc@[k],
        decreases a@.len() - i,
    {
        if a[i] != bc[i] {
            assert(a@[i as int] != bc@[i as int]);
            return false;
        }
        i = i + 1;
    }
    assert(a@ =~= bc@);
    true
}

fn charging_state(line: &Vec<char>) -> (r: Option<bool>)
    ensures
        r == charging_of(line@),
{
    let parts = split_chars(line, ';');
    if parts.len() < 2 {
        return None;
    }
    assert(views_of(parts@)[1] == parts@[1]@);
    let state = trim_chars(&parts[1]);
    if same_chars(&state, "charging") || same_chars(&state, "finishing charge") {
        Some(true)
    } else if same_chars(&state, "discharging") || same_chars(&state, "charged") {
        Some(false)
    } else {
        None
    }
}

fn first_line_holding(lines: &Vec<Vec<char>>, c: char) -> (r: usize)
    ensures
        r == first_line_with(views_of(lines@), c, 0),
{
    let ghost ls = views_of(lines@);
    let mut i: usize = 0;
    while i < lines.len()
        invariant
            i <= lines@.len(),
            ls == views_of(lines@),
            first_line_with(ls, c, 0) == first_line_with(ls, c, i as int),
        decreases lines@.len() - i,
    {
        assert(ls[i as int] == lines@[i as int]@);
        if has_char(&lines[i], c) {
            return i;
        }
        i = i + 1;
    }
    i
}

/// Parse human-readable `pmset -g batt` output without assuming a battery exists.
pub fn parse_battery(output: &str) -> (r: Option<BatteryReading>)
    ensures
        match r {
            None => battery_of(output@) is None,
            Some(b) => battery_of(output@) matches Some((p, source, charging)) && b.percent == p
                && match b.power_source {
                Some(t) => source == Some(t@),
                None => source is None,
            } && b.charging == charging,
        },
{
    let lines = lines_of(&chars_of(output));
    let ghost ls = views_of(lines@);
    let i = first_line_holding(&lines, '%');
    if i >= lines.len() {
        return None;
    }
    assert(ls[i as int] == lines@[i as int]@);
    let line = &lines[i];
    let pieces = split_chars(line, '%');
    proof {
        lemma_split_on_len(line@, '%');
    }
    assert(views_of(pieces@)[0] == pieces@[0]@);
    let digits = digits_at_end(&pieces[0]);
    let percent = match parse_unsigned(&digits, 255) {
        Some(p) => p,
        None => {
            return None;
        },
    };
    if percent > 100 {
        return None;
    }
    Some(
        BatteryReading {
            percent: percent as u8,
            power_source: source_of(&lines),
            charging: charging_state(line),
        },
    )
}

/// The position of the first line containing `needle`, from `i` on, or the number of
/// lines.
pub open spec fn first_line_containing(lines: Seq<Seq<char>>, needle: Seq<char>, i: int) -> int
    decreases lines.len() - i,
{
    if i < 0 || i >= lines.len() {
        lines.len() as int
    } else if has_substring(lines[i], needle) {
        i
    } else {
        first_line_containing(lines, needle, i + 1)
    }
}

/// The text of a CPU share field: what comes before its first `%`, trimmed.
pub open spec fn share_text(field: Seq<char>) -> Seq<char> {
    trimmed(split_on(field, '%')[0])
}

/// The share texts of a `top -l 1` report: on the first line mentioning `CPU usage:`,
/// the part after the first `:` (up to a second one, or nothing if there is none),
/// split at commas, each field's text before its `%`, trimmed; no such line, none.
pub open spec fn cpu_usage_texts_of(s: Seq<char>) -> Option<Seq<Seq<char>>> {
    let lines = text_lines(s);
    let i = first_line_containing(lines, "CPU usage:"@, 0);
    if i >= lines.len() {
        None
    } else {
        let parts = split_on(lines[i], ':');
        let segment = if parts.len() > 1 {
            parts[1]
        } else {
            Seq::empty()
        };
        let fields = split_on(segment, ',');
        Some(Seq::new(fields.len(), |k: int| share_text(fields[k])))
    }
}

/// The strings of `v` as character sequences.
pub open spec fn strings_view(v: Seq<String>) -> Seq<Seq<char>> {
    v.map_values(|s: String| s@)
}

fn first_line_with_text(lines: &Vec<Vec<char>>, needle: &Vec<char>) -> (r: usize)
    ensures
        r == first_line_containing(views_of(lines@), needle@, 0),
{
    let ghost ls = views_of(lines@);
    let mut i: usize = 0;
    while i < lines.len()
        invariant
            i <= lines@.len(),
            ls == views_of(lines@),
            first_line_containing(ls, needle@, 0) == first_line_containing(ls, needle@, i as int),
        decreases lines@.len() - i,
    {
        assert(ls[i as int] == lines@[i as int]@);
        if contains_chars(&lines[i], needle) {
            return i;
        }
        i = i + 1;
    }
    i
}

/// The numeric texts of the CPU shares in `top -l 1` output, user first, then system,
/// then idle, as the report lists them; `None` without a `CPU usage:` line.
pub fn cpu_usage_texts(output: &str) -> (r: Option<Vec<String>>)
    ensures
        match r {
            None => cpu_usage_texts_of(output@) is None,
            Some(v) => cpu_usage_texts_of(output@) == Some(strings_view(v@)),
        },
{
    let lines = lines_of(&chars_of(output));
    let ghost ls = views_of(lines@);
    let i = first_line_with_text(&lines, &chars_of("CPU usage:"));
    if i >= lines.len() {
        return None;
    }
    assert(ls[i as int] == lines@[i as int]@);
    let parts = split_chars(&lines[i], ':');
    let ghost pv = views_of(parts@);
    let segment: Vec<char> = if parts.len() > 1 {
        assert(pv[1] == parts@[1]@);
        suffix_from(&parts[1], 0)
    } else {
        Vec::new()
    };
    assert(segment@ =~= (if pv.len() > 1 { pv[1] } else { Seq::<char>::empty() }));
    let fields = split_chars(&segment, ',');
    let ghost fv = views_of(fields@);
    let mut out: Vec<String> = Vec::new();
    let mut k: usize = 0;
    while k < fields.len()
        invariant
            k <= fields@.len(),
            fv == views_of(fields@),
            strings_view(out@) == Seq::new(k as nat, |j: int| share_text(fv[j])),
        decreases fields@.len() - k,
    {
        assert(fv[k as int] == fields@[k as int]@);
        let pieces = split_chars(&fields[k], '%');
        proof {
            lemma_split_on_len(fields@[k as int]@, '%');
        }
        assert(views_of(pieces@)[0] == pieces@[0]@);
        let text = string_of(&trim_chars(&pieces[0]));
        assert(text@ == share_text(fv[k as int]));
        let ghost before = strings_view(out@);
        let ghost tv = text@;
        out.push(text);
        assert(strings_view(out@) =~= before.push(tv));
        assert(strings_view(out@) =~= Seq::new((k + 1) as nat, |j: int| share_text(fv[j])));
        k = k + 1;
    }
    Some(out)
}

/// Whether `x` is `c` once ASCII letters are lowercased, for a lowercase letter `c`
/// with uppercase form `upper`.
pub open spec fn folds_to(x: char, c: char, upper: char) -> bool {
    x == c || x == upper
}

/// Whether a sensor label, with its ASCII letters lowercased, contains `cpu`.
pub open spec fn mentions_cpu(label: Seq<char>) -> bool {
    exists|i: int|
        0 <= i && i + 3 <= label.len() && #[trigger] folds_to(label[i], 'c', 'C') && folds_to(
            label[i + 1],
            'p',
            'P',
        ) && folds_to(label[i + 2], 'u', 'U')
}

/// The first readable sensor from `i` on whose label mentions the CPU, or the number
/// of sensors.
pub open spec fn first_cpu_sensor(labels: Seq<Seq<char>>, readable: Seq<bool>, i: int) -> int
    decreases labels.len() - i,
{
    if i < 0 || i >= labels.len() {
        labels.len() as int
    } else if readable[i] && mentions_cpu(labels[i]) {
        i
    } else {
        first_cpu_sensor(labels, readable, i + 1)
    }
}

/// The first readable sensor from `i` on, or the number of sensors.
pub open spec fn first_readable(readable: Seq<bool>, i: int) -> int
    decreases readable.len() - i,
{
    if i < 0 || i >= readable.len() {
        readable.len() as int
    } else if readable[i] {
        i
    } else {
        first_readable(readable, i + 1)
    }
}

/// The sensor whose temperature is shown: the first readable one whose label mentions
/// the CPU, else the first readable one, else none.
pub open spec fn chosen_sensor(labels: Seq<Seq<char>>, readable: Seq<bool>) -> Option<int> {
    if first_cpu_sensor(labels, readable, 0) < labels.len() {
        Some(first_cpu_sensor(labels, readable, 0))
    } else if first_readable(readable, 0) < readable.len() {
        Some(first_readable(readable, 0))
    } else {
        None
    }
}

fn label_mentions_cpu(label: &str) -> (r: bool)
    ensures
        r == mentions_cpu(label@),
{
    let cs = chars_of(label);
    if cs.len() < 3 {
        return false;
    }
    let last: usize = cs.len() - 3;
    let mut i: usize = 0;
    while i <= last
        invariant
            last == cs@.len() - 3,
            cs@.len() <= usize::MAX,
            cs@ == label@,
            cs@.len() >= 3,
            i <= last + 1,
            forall|j: int|
                0 <= j < i ==> !(#[trigger] folds_to(cs@[j], 'c', 'C') && folds_to(cs@[j + 1], 'p', 'P')
                    && folds_to(cs@[j + 2], 'u', 'U')),
        decreases cs@.len() - i,
    {
        let a = cs[i];
        let b = cs[i + 1];
        let c = cs[i + 2];
        if (a == 'c' || a == 'C') && (b == 'p' || b == 'P') && (c == 'u' || c == 'U') {
            assert(folds_to(cs@[i as int], 'c', 'C'));
            return true;
        }
        i = i + 1;
    }
    assert forall|j: int|
        0 <= j && j + 3 <= label@.len() implies !(#[trigger] folds_to(label@[j], 'c', 'C') && folds_to(
            label@[j + 1],
            'p',
            'P',
        ) && folds_to(label@[j + 2], 'u', 'U')) by {
        assert(j < i);
    }
    false
}

/// Which sensor's temperature to show, from each sensor's label and whether its
/// reading is usable: the first usable one whose label mentions the CPU, else the
/// first usable one.
pub fn choose_sensor(labels: &Vec<String>, readable: &Vec<bool>) -> (r: Option<usize>)
    requires
        labels@.len() == readable@.len(),
    ensures
        match r {
            Some(i) => chosen_sensor(strings_view(labels@), readable@) == Some(i as int),
            None => chosen_sensor(strings_view(labels@), readable@) is None,
        },
{
    let ghost ls = strings_view(labels@);
    let mut i: usize = 0;
    while i < labels.len()
        invariant
            i <= labels@.len(),
            labels@.len() == readable@.len(),
            ls == strings_view(labels@),
            first_cpu_sensor(ls, readable@, 0) == first_cpu_sensor(ls, readable@, i as int),
        decreases labels@.len() - i,
    {
        assert(ls[i as int] == labels@[i as int]@);
        if readable[i] && label_mentions_cpu(labels[i].as_str()) {
            return Some(i);
        }
        i = i + 1;
    }
    let mut k: usize = 0;
    while k < readable.len()
        invariant
            k <= readable@.len(),
            labels@.len() == readable@.len(),
            ls == strings_view(labels@),
            first_cpu_sensor(ls, readable@, 0) == ls.len(),
            first_readable(readable@, 0) == first_readable(readable@, k as int),
        decreases readable@.len() - k,
    {
        if readable[k] {
            return Some(k);
        }
        k = k + 1;
    }
    None
}

/// What the battery report says of charging is read off the battery line's state field,
/// the second `;`-separated field trimmed: "charging" and "finishing charge" mean it
/// charges, "discharging" and "charged" mean it does not, and anything else, or no
/// such field, leaves it unknown. The percentage and power source do not depend on it.
pub proof fn lemma_charging_follows_the_state_field(report: Seq<char>)
    ensures
        battery_of(report) matches Some((p, source, charging)) ==> {
            let line = text_lines(report)[first_line_with(text_lines(report), '%', 0)];
            let fields = split_on(line, ';');
            &&& fields.len() >= 2 && trimmed(fields[1]) == "charging"@ ==> charging == Some(true)
            &&& fields.len() >= 2 && trimmed(fields[1]) == "finishing charge"@ ==> charging == Some(true)
            &&& fields.len() >= 2 && trimmed(fields[1]) == "discharging"@ ==> charging == Some(false)
            &&& fields.len() >= 2 && trimmed(fields[1]) == "charged"@ ==> charging == Some(false)
            &&& (fields.len() < 2 || (trimmed(fields[1]) != "charging"@ && trimmed(fields[1])
                != "finishing charge"@ && trimmed(fields[1]) != "discharging"@ && trimmed(fields[1])
                != "charged"@)) ==> charging is None
        },
{
    reveal_strlit("charging");
    reveal_strlit("finishing charge");
    reveal_strlit("discharging");
    reveal_strlit("charged");
    let lines = text_lines(report);
    let i = first_line_with(lines, '%', 0);
    if let Some((p, source, charging)) = battery_of(report) {
        assert(i < lines.len());
        assert(charging == charging_of(lines[i]));
        assert("charging"@.len() == 8);
        assert("charged"@.len() == 7);
        assert("discharging"@.len() == 11);
        assert("finishing charge"@.len() == 16);
    }
}

} // verus!
