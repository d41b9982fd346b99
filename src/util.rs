//! Text helpers and the encoding of workflow commands.
use vstd::prelude::*;

verus! {

/// `n` occurs in `h` starting at index `i`.
pub open spec fn occurs_at(h: Seq<char>, n: Seq<char>, i: int) -> bool {
    0 <= i && i + n.len() <= h.len() && h.subrange(i, i + n.len()) == n
}

/// `n` is a substring of `h`.
pub open spec fn has_substring(h: Seq<char>, n: Seq<char>) -> bool {
    exists|i: int| occurs_at(h, n, i)
}

/// The characters of `s`, in order.
pub fn chars_of(s: &str) -> (r: Vec<char>)
    ensures
        r@ == s@,
{
    let mut v: Vec<char> = Vec::new();
    for c in it: s.chars()
        invariant
            it.seq() == s@,
            v@ == it.seq().subrange(0, it.index() as int),
    {
        v.push(c);
    }
    v
}

fn matches_at(h: &Vec<char>, n: &Vec<char>, i: usize) -> (r: bool)
    requires
        i + n@.len() <= h@.len(),
    ensures
        r == occurs_at(h@, n@, i as int),
{
    let hl: usize = h.len();
    let mut j: usize = 0;
    while j < n.len()
        invariant
            j <= n@.len(),
            i + n@.len() <= h@.len(),
            hl == h@.len(),
            forall|k: int| 0 <= k < j ==> h@[i + k] == n@[k],
        decreases n@.len() - j,
    {
        if h[i + j] != n[j] {
            assert(h@.subrange(i as int, i + n@.len())[j as int] != n@[j as int]);
            return false;
        }
        j = j + 1;
    }
    assert(h@.subrange(i as int, i + n@.len()) =~= n@);
    true
}

/// Whether `needle` occurs in `haystack`.
pub fn contains(haystack: &str, needle: &str) -> (r: bool)
    ensures
        r == has_substring(haystack@, needle@),
{
    let h = chars_of(haystack);
    let n = chars_of(needle);
    if n.len() == 0 {
        assert(h@.subrange(0, 0) =~= n@);
        assert(occurs_at(h@, n@, 0));
        return true;
    }
    let hl: usize = h.len();
    if n.len() > hl {
        return false;
    }
    let last: usize = hl - n.len();
    let mut i: usize = 0;
    while i <= last
        invariant
            last == h@.len() - n@.len(),
            hl == h@.len(),
            n@.len() > 0,
            h@ == haystack@,
            n@ == needle@,
            forall|k: int| 0 <= k < i ==> !occurs_at(h@, n@, k),
        decreases last + 1 - i,
    {
        if matches_at(&h, &n, i) {
            return true;
        }
        i = i + 1;
    }
    assert forall|k: int| !occurs_at(h@, n@, k) by {
        if 0 <= k < i {
        }
    }
    false
}

/// The line ending written after every message; the host platform picks it.
#[derive(Clone, Copy, Debug, PartialEq, Eq, Structural)]
pub enum LineEnding {
    /// `"\n"`
    Lf,
    /// `"\r\n"`, the line ending of Windows hosts
    CrLf,
}

impl LineEnding {
    pub open spec fn text(self) -> Seq<char> {
        match self {
            LineEnding::Lf => "\n"@,
            LineEnding::CrLf => "\r\n"@,
        }
    }

    /// The line ending of a Windows host when `windows` holds, else the
    /// one of every other host.
    pub fn native(windows: bool) -> (r: LineEnding)
        ensures
            r == (if windows { LineEnding::CrLf } else { LineEnding::Lf }),
    {
        if windows {
            LineEnding::CrLf
        } else {
            LineEnding::Lf
        }
    }

    pub fn as_str(&self) -> (r: &'static str)
        ensures
            r@ == self.text(),
    {
        match self {
            LineEnding::Lf => "\n",
            LineEnding::CrLf => "\r\n",
        }
    }

    /// `msg` followed by the line ending: one line of a channel.
    pub fn terminate(&self, msg: &str) -> (r: String)
        ensures
            r@ == msg@ + self.text(),
    {
        let mut line = String::from_str(msg);
        line.append(self.as_str());
        line
    }
}

/// The single-line command `::{command} name={name}::{value}`.
pub open spec fn legacy_command(command: Seq<char>, name: Seq<char>, value: Seq<char>) -> Seq<char> {
    "::"@ + command + " name="@ + name + "::"@ + value
}

/// Encodes a single-line command. Nothing is escaped: a `value` holding a
/// line break or `::` breaks the line-oriented scanner that reads it.
pub fn old_command_message(command: &str, name: &str, value: &str) -> (r: String)
    ensures
        r@ == legacy_command(command@, name@, value@),
{
    let mut msg = String::from_str("::");
    msg.append(command);
    msg.append(" name=");
    msg.append(name);
    msg.append("::");
    msg.append(value);
    msg
}

/// A lowercase hexadecimal digit.
pub open spec fn is_lower_hex(c: char) -> bool {
    ('0' <= c && c <= '9') || ('a' <= c && c <= 'f')
}

/// The canonical hyphenated form of a 128-bit identifier: 32 lowercase hex
/// digits in groups of 8, 4, 4, 4 and 12, joined by `-`.
pub open spec fn is_hyphenated_id(t: Seq<char>) -> bool {
    &&& t.len() == 36
    &&& forall|i: int|
        0 <= i < 36 ==> if i == 8 || i == 13 || i == 18 || i == 23 {
            #[trigger] t[i] == '-'
        } else {
            is_lower_hex(t[i])
        }
}

/// A hyphenated identifier of version 4: the version digit is `4`, and the
/// variant digit is one of `8`, `9`, `a`, `b`.
pub open spec fn is_random_id(t: Seq<char>) -> bool {
    &&& is_hyphenated_id(t)
    &&& t[14] == '4'
    &&& (t[19] == '8' || t[19] == '9' || t[19] == 'a' || t[19] == 'b')
}

/// The fixed start of every delimiter.
pub open spec fn delimiter_prefix() -> Seq<char> {
    "ghadelimiter_"@
}

/// A delimiter: the fixed prefix followed by a random identifier.
pub open spec fn is_delimiter(d: Seq<char>) -> bool {
    exists|id: Seq<char>| is_random_id(id) && d == delimiter_prefix() + id
}

/// Relies on `uuid::Uuid::new_v4`, which draws a random version-4 identifier,
/// and on its `Display`, which writes the lowercase hyphenated form.
#[verifier::external_body]
fn random_id() -> (r: String)
    ensures
        is_random_id(r@),
{
    uuid::Uuid::new_v4().to_string()
}

/// Where delimiters come from. Each draw takes a new random identifier; the
/// delimiters drawn so far are kept as ghost state, so that contracts can say
/// how many draws a call makes.
pub struct Delimiters {
    drawn: Ghost<Seq<Seq<char>>>,
}

impl Delimiters {
    /// The delimiters drawn so far, oldest first.
    pub closed spec fn drawn(&self) -> Seq<Seq<char>> {
        self.drawn@
    }

    /// A source from which nothing has been drawn.
    pub fn new() -> (r: Delimiters)
        ensures
            r.drawn() == Seq::<Seq<char>>::empty(),
    {
        Delimiters { drawn: Ghost(Seq::empty()) }
    }

    /// Draws a fresh delimiter.
    pub fn draw(&mut self) -> (r: String)
        ensures
            is_delimiter(r@),
            final(self).drawn() == old(self).drawn().push(r@),
    {
        let id = random_id();
        let mut d = String::from_str("ghadelimiter_");
        d.append(id.as_str());
        assert(is_random_id(id@) && d@ == delimiter_prefix() + id@);
        self.drawn = Ghost(self.drawn@.push(d@));
        d
    }
}

/// The heredoc record `{key}<<{d}{eol}{value}{eol}{d}`.
pub open spec fn framed(key: Seq<char>, value: Seq<char>, d: Seq<char>, eol: Seq<char>) -> Seq<char> {
    key + "<<"@ + d + eol + value + eol + d
}

/// The error given when the name holds the delimiter `d`.
pub open spec fn name_collision(d: Seq<char>) -> Seq<char> {
    "Unexpected input: name should not contain the delimiter \""@ + d + "\""@
}

/// The error given when the value holds the delimiter `d`.
pub open spec fn value_collision(d: Seq<char>) -> Seq<char> {
    "Unexpected input: value should not contain the delimiter \""@ + d + "\""@
}

/// What framing `key` and `value` with the delimiter `d` gives.
pub open spec fn key_value_outcome(
    key: Seq<char>,
    value: Seq<char>,
    d: Seq<char>,
    eol: Seq<char>,
) -> Result<Seq<char>, Seq<char>> {
    if has_substring(key, d) {
        Err(name_collision(d))
    } else if has_substring(value, d) {
        Err(value_collision(d))
    } else {
        Ok(framed(key, value, d, eol))
    }
}

/// The view of a result of two strings.
pub open spec fn text_result(r: Result<String, String>) -> Result<Seq<char>, Seq<char>> {
    match r {
        Ok(s) => Ok(s@),
        Err(e) => Err(e@),
    }
}

/// Frames `key` and `value` with the given delimiter. Fails, naming the side,
/// where the name or the value holds the delimiter.
pub fn frame_key_value(key: &str, value: &str, delimiter: &str, eol: LineEnding) -> (r: Result<
    String,
    String,
>)
    ensures
        text_result(r) == key_value_outcome(key@, value@, delimiter@, eol.text()),
{
    if contains(key, delimiter) {
        let mut e = String::from_str("Unexpected input: name should not contain the delimiter \"");
        e.append(delimiter);
        e.append("\"");
        return Err(e);
    }
    if contains(value, delimiter) {
        let mut e = String::from_str("Unexpected input: value should not contain the delimiter \"");
        e.append(delimiter);
        e.append("\"");
        return Err(e);
    }
    let mut m = String::from_str(key);
    m.append("<<");
    m.append(delimiter);
    m.append(eol.as_str());
    m.append(value);
    m.append(eol.as_str());
    m.append(delimiter);
    Ok(m)
}

/// Frames `key` and `value` as a file-command record, with a delimiter
/// drawn from `delimiters`. It draws exactly once: where the name or the
/// value holds that delimiter, it fails, and draws no other.
pub fn prepare_key_value_message(
    key: &str,
    value: &str,
    eol: LineEnding,
    delimiters: &mut Delimiters,
) -> (r: Result<String, String>)
    ensures
        final(delimiters).drawn().len() == old(delimiters).drawn().len() + 1,
        final(delimiters).drawn().drop_last() == old(delimiters).drawn(),
        is_delimiter(final(delimiters).drawn().last()),
        text_result(r) == key_value_outcome(
            key@,
            value@,
            final(delimiters).drawn().last(),
            eol.text(),
        ),
{
    let delimiter = delimiters.draw();
    assert(delimiters.drawn().drop_last() =~= old(delimiters).drawn());
    frame_key_value(key, value, delimiter.as_str(), eol)
}

/// The decimal digit for `d`, which is below ten.
pub open spec fn digit_char(d: int) -> char {
    if d == 0 {
        '0'
    } else if d == 1 {
        '1'
    } else if d == 2 {
        '2'
    } else if d == 3 {
        '3'
    } else if d == 4 {
        '4'
    } else if d == 5 {
        '5'
    } else if d == 6 {
        '6'
    } else if d == 7 {
        '7'
    } else if d == 8 {
        '8'
    } else {
        '9'
    }
}

/// `n` written in decimal, without leading zeros.
pub open spec fn decimal_text(n: nat) -> Seq<char>
    decreases n,
{
    if n < 10 {
        seq![digit_char(n as int)]
    } else {
        decimal_text(n / 10).push(digit_char((n % 10) as int))
    }
}

fn digit_str(d: u64) -> (r: &'static str)
    requires
        d < 10,
    ensures
        r@ == seq![digit_char(d as int)],
{
    let r = if d == 0 {
        "0"
    } else if d == 1 {
        "1"
    } else if d == 2 {
        "2"
    } else if d == 3 {
        "3"
    } else if d == 4 {
        "4"
    } else if d == 5 {
        "5"
    } else if d == 6 {
        "6"
    } else if d == 7 {
        "7"
    } else if d == 8 {
        "8"
    } else {
        "9"
    };
    proof {
        reveal_strlit("0");
        reveal_strlit("1");
        reveal_strlit("2");
        reveal_strlit("3");
        reveal_strlit("4");
        reveal_strlit("5");
        reveal_strlit("6");
        reveal_strlit("7");
        reveal_strlit("8");
        reveal_strlit("9");
    }
    assert(r@ =~= seq![digit_char(d as int)]);
    r
}

/// `n` written in decimal.
pub fn decimal(n: u64) -> (r: String)
    ensures
        r@ == decimal_text(n as nat),
    decreases n,
{
    if n < 10 {
        String::from_str(digit_str(n))
    } else {
        let mut s = decimal(n / 10);
        s.append(digit_str(n % 10));
        s
    }
}

/// A decimal digit.
pub open spec fn is_digit(c: char) -> bool {
    '0' <= c && c <= '9'
}

/// `s` is a nonempty run of decimal digits.
pub open spec fn all_digits(s: Seq<char>) -> bool {
    s.len() > 0 && forall|i: int| 0 <= i < s.len() ==> is_digit(#[trigger] s[i])
}

/// The number that the digits `s` write in decimal.
pub open spec fn digits_value(s: Seq<char>) -> nat
    decreases s.len(),
{
    if s.len() == 0 {
        0
    } else {
        digits_value(s.drop_last()) * 10 + (s.last() as nat - '0' as nat) as nat
    }
}

/// The number that `s` writes in decimal, where it is at most `max`.
pub open spec fn number_at_most(s: Seq<char>, max: nat) -> Option<nat> {
    if all_digits(s) && digits_value(s) <= max {
        Some(digits_value(s))
    } else {
        None
    }
}

/// Reads `s` as a decimal number of at most `max`: only digits, at least one.
pub fn parse_number(s: &str, max: u128) -> (r: Option<u128>)
    ensures
        match number_at_most(s@, max as nat) {
            Some(n) => r == Some(n as u128),
            None => r is None,
        },
{
    let cs = chars_of(s);
    if cs.len() == 0 {
        return None;
    }
    let mut acc: u128 = 0;
    let mut too_big = false;
    let mut i: usize = 0;
    while i < cs.len()
        invariant
            cs@ == s@,
            i <= cs@.len(),
            forall|k: int| 0 <= k < i ==> is_digit(#[trigger] cs@[k]),
            !too_big ==> acc == digits_value(cs@.subrange(0, i as int)) && acc <= max,
            too_big ==> digits_value(cs@.subrange(0, i as int)) > max,
        decreases cs@.len() - i,
    {
        let c = cs[i];
        if !('0' <= c && c <= '9') {
            return None;
        }
        let d: u128 = (c as u32 - '0' as u32) as u128;
        let ghost pre = cs@.subrange(0, i as int);
        assert(cs@.subrange(0, i + 1).drop_last() =~= pre);
        if !too_big {
            if acc > max / 10 || (acc == max / 10 && d > max % 10) {
                assert(acc * 10 + d > max) by (nonlinear_arith)
                    requires
                        acc > max / 10 || (acc == max / 10 && d > max % 10),
                        d < 10,
                ;
                too_big = true;
            } else {
                assert(acc * 10 + d <= max) by (nonlinear_arith)
                    requires
                        !(acc > max / 10 || (acc == max / 10 && d > max % 10)),
                        d < 10,
                ;
                acc = acc * 10 + d;
            }
        }
        i = i + 1;
    }
    assert(cs@.subrange(0, i as int) =~= s@);
    if too_big {
        None
    } else {
        Some(acc)
    }
}

/// A single-line command keeps its parts as given: after ` name=` come the
/// name, `::` and the value, and where the name holds no `::` and does not end
/// in `:`, that `::` is the first one after ` name=`, so a reader that splits
/// there gets the name and the value back.
pub proof fn lemma_legacy_round_trip(command: Seq<char>, name: Seq<char>, value: Seq<char>)
    requires
        !has_substring(name, "::"@),
        !has_substring(value, "::"@),
        name.len() == 0 || name.last() != ':',
    ensures
        ({
            let body = name + "::"@ + value;
            &&& legacy_command(command, name, value) == "::"@ + command + " name="@ + body
            &&& occurs_at(body, "::"@, name.len() as int)
            &&& forall|j: int| 0 <= j < name.len() ==> !occurs_at(body, "::"@, j)
            &&& body.subrange(0, name.len() as int) == name
            &&& body.subrange(name.len() + 2int, body.len() as int) == value
        }),
{
    reveal_strlit("::");
    let body = name + "::"@ + value;
    assert(legacy_command(command, name, value) =~= "::"@ + command + " name="@ + body);
    assert(body.subrange(name.len() as int, name.len() + 2int) =~= "::"@);
    assert(body.subrange(0, name.len() as int) =~= name);
    assert(body.subrange(name.len() + 2int, body.len() as int) =~= value);
    assert forall|j: int| 0 <= j < name.len() implies !occurs_at(body, "::"@, j) by {
        if occurs_at(body, "::"@, j) {
            assert(body.subrange(j, j + 2)[0] == ':');
            assert(body.subrange(j, j + 2)[1] == ':');
            if j + 2 <= name.len() {
                assert(name.subrange(j, j + 2) =~= "::"@);
                assert(occurs_at(name, "::"@, j));
            } else {
                assert(body[j] == name.last());
            }
        }
    }
}

/// A file-command record starts with the key and `<<`, and holds the
/// delimiter twice, the same both times: right after `<<`, and as its last
/// line, after the value; a delimiter has its prefix and 36 more characters.
pub proof fn lemma_record_shape(key: Seq<char>, value: Seq<char>, d: Seq<char>, eol: Seq<char>)
    requires
        is_delimiter(d),
        !has_substring(key, d),
        !has_substring(value, d),
    ensures
        ({
            let m = framed(key, value, d, eol);
            &&& key_value_outcome(key, value, d, eol) == Ok::<Seq<char>, Seq<char>>(m)
            &&& d.len() == delimiter_prefix().len() + 36
            &&& m.subrange(0, key.len() + 2int) == key + "<<"@
            &&& occurs_at(m, d, key.len() + 2int)
            &&& occurs_at(m, d + eol + value + eol + d, key.len() + 2int)
            &&& occurs_at(m, eol + d, m.len() - d.len() - eol.len() as int)
            &&& m.len() == key.len() + 2 + 2 * d.len() + 2 * eol.len() + value.len()
        }),
{
    reveal_strlit("<<");
    let m = framed(key, value, d, eol);
    let k: int = key.len() + 2int;
    assert(m =~= (key + "<<"@) + (d + eol + value + eol + d));
    assert(m.subrange(0, k) =~= key + "<<"@);
    assert(m.subrange(k, k + d.len()) =~= d);
    assert(m.subrange(k, m.len() as int) =~= d + eol + value + eol + d);
    assert(m.subrange(m.len() - d.len() - eol.len() as int, m.len() as int) =~= eol + d);
}

/// A delimiter starts with `g` and holds no `<` and no line-ending character.
proof fn lemma_delimiter_chars(d: Seq<char>)
    requires
        is_delimiter(d),
    ensures
        d.len() == 49,
        d[0] == 'g',
        forall|j: int| 0 <= j < d.len() ==> #[trigger] d[j] != '<' && d[j] != '\n' && d[j] != '\r',
{
    reveal_strlit("ghadelimiter_");
    let id = choose|id: Seq<char>| is_random_id(id) && d == delimiter_prefix() + id;
    assert(d[0] == delimiter_prefix()[0]);
    assert forall|j: int| 0 <= j < d.len() implies #[trigger] d[j] != '<' && d[j] != '\n' && d[j]
        != '\r' by {
        if j < 13 {
            assert(d[j] == delimiter_prefix()[j]);
        } else {
            assert(d[j] == id[j - 13]);
        }
    }
}

/// Where each character of a record comes from.
proof fn lemma_record_layout(key: Seq<char>, value: Seq<char>, d: Seq<char>, e: Seq<char>)
    ensures
        ({
            let m = framed(key, value, d, e);
            &&& m.len() == key.len() + 2 + 2 * d.len() + 2 * e.len() + value.len()
            &&& forall|p: int| 0 <= p < key.len() ==> #[trigger] m[p] == key[p]
            &&& forall|p: int| key.len() <= p < key.len() + 2 ==> #[trigger] m[p] == '<'
            &&& forall|p: int|
                key.len() + 2 + d.len() <= p < key.len() + 2 + d.len() + e.len() ==> #[trigger] m[p]
                    == e[p - (key.len() + 2 + d.len())]
            &&& forall|p: int|
                key.len() + 2 + d.len() + e.len() <= p < key.len() + 2 + d.len() + e.len()
                    + value.len() ==> #[trigger] m[p] == value[p - (key.len() + 2 + d.len()
                    + e.len())]
            &&& forall|p: int|
                key.len() + 2 + d.len() + e.len() + value.len() <= p < key.len() + 2 + d.len() + 2
                    * e.len() + value.len() ==> #[trigger] m[p] == e[p - (key.len() + 2 + d.len()
                    + e.len() + value.len())]
            &&& m.subrange(key.len() + 2int, key.len() + 2 + d.len() as int) == d
            &&& m.subrange(m.len() - d.len(), m.len() as int) == d
        }),
{
    reveal_strlit("<<");
    let m = framed(key, value, d, e);
    assert(m.subrange(key.len() + 2int, key.len() + 2 + d.len() as int) =~= d);
    assert(m.subrange(m.len() - d.len(), m.len() as int) =~= d);
}

/// In a text laid out as a record, with a delimiter that holds no `<` and
/// no line-ending character, the delimiter starts only at the two places
/// where the record puts it.
#[verifier::rlimit(40)]
proof fn lemma_two_places(
    m: Seq<char>,
    key: Seq<char>,
    value: Seq<char>,
    d: Seq<char>,
    e: Seq<char>,
    i: int,
)
    requires
        !has_substring(key, d),
        !has_substring(value, d),
        d.len() > 0,
        d[0] == 'g',
        forall|j: int| 0 <= j < d.len() ==> #[trigger] d[j] != '<' && d[j] != '\n' && d[j] != '\r',
        e.len() >= 1,
        forall|j: int| 0 <= j < e.len() ==> #[trigger] e[j] == '\n' || e[j] == '\r',
        m.len() == key.len() + 2 + 2 * d.len() + 2 * e.len() + value.len(),
        forall|p: int| 0 <= p < key.len() ==> #[trigger] m[p] == key[p],
        forall|p: int| key.len() <= p < key.len() + 2 ==> #[trigger] m[p] == '<',
        forall|p: int|
            key.len() + 2 + d.len() <= p < key.len() + 2 + d.len() + e.len() ==> #[trigger] m[p]
                == e[p - (key.len() + 2 + d.len())],
        forall|p: int|
            key.len() + 2 + d.len() + e.len() <= p < key.len() + 2 + d.len() + e.len()
                + value.len() ==> #[trigger] m[p] == value[p - (key.len() + 2 + d.len()
                + e.len())],
        forall|p: int|
            key.len() + 2 + d.len() + e.len() + value.len() <= p < key.len() + 2 + d.len() + 2
                * e.len() + value.len() ==> #[trigger] m[p] == e[p - (key.len() + 2 + d.len()
                + e.len() + value.len())],
        occurs_at(m, d, i),
    ensures
        i == key.len() + 2 || i == m.len() - d.len(),
{
    let k: int = key.len() as int;
    let l: int = d.len() as int;
    let a: int = k + 2 + l;
    let b: int = a + e.len();
    let c: int = b + value.len();
    let z: int = c + e.len();
    assert forall|p: int| i <= p < i + l implies m[p] == d[p - i] by {
        assert(m.subrange(i, i + l)[p - i] == m[p]);
    }
    if i + l <= k {
        assert(key.subrange(i, i + l) =~= d);
        assert(occurs_at(key, d, i));
    } else if i < k + 2 {
        let p = if i >= k { i } else { k };
        assert(m[p] == d[p - i]);
    } else if i < a {
        if i != k + 2 {
            assert(m[a] == e[0]);
            assert(m[a] == d[a - i]);
        }
    } else if i < b {
        assert(m[i] == e[i - a]);
        assert(m[i] == d[0]);
    } else if i + l <= c {
        assert(value.subrange(i - b, i - b + l) =~= d);
        assert(occurs_at(value, d, i - b));
    } else if i < c {
        assert(m[c] == e[0]);
        assert(m[c] == d[c - i]);
    } else if i < z {
        assert(m[i] == e[i - c]);
        assert(m[i] == d[0]);
    }
}

/// The delimiter occurs in a record exactly twice: right after `<<`, and at
/// the very end; at no other place does it start.
#[verifier::spinoff_prover]
pub proof fn lemma_delimiter_twice(key: Seq<char>, value: Seq<char>, d: Seq<char>, eol: LineEnding)
    requires
        is_delimiter(d),
        !has_substring(key, d),
        !has_substring(value, d),
    ensures
        ({
            let m = framed(key, value, d, eol.text());
            &&& key.len() + 2 < m.len() - d.len()
            &&& forall|i: int|
                occurs_at(m, d, i) <==> (i == key.len() + 2 || i == m.len() - d.len())
        }),
{
    reveal_strlit("\n");
    reveal_strlit("\r\n");
    lemma_delimiter_chars(d);
    let e = eol.text();
    assert(e.len() >= 1);
    assert(forall|j: int| 0 <= j < e.len() ==> #[trigger] e[j] == '\n' || e[j] == '\r');
    lemma_record_layout(key, value, d, e);
    let m = framed(key, value, d, e);
    assert forall|i: int| occurs_at(m, d, i) implies i == key.len() + 2 || i == m.len()
        - d.len() by {
        lemma_two_places(m, key, value, d, e, i);
    }
}

/// Where the key or the value holds the delimiter, framing fails: it never
/// yields a record.
pub proof fn lemma_collision_fails(key: Seq<char>, value: Seq<char>, d: Seq<char>, eol: Seq<char>)
    requires
        has_substring(key, d) || has_substring(value, d),
    ensures
        key_value_outcome(key, value, d, eol) is Err,
{
}

} // verus!
