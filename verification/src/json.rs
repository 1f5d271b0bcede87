use vstd::prelude::*;

verus! {

// ---------------------------------------------------------------------------
// Values
// ---------------------------------------------------------------------------

/// A flat JSON scalar, the only value shapes the entity codecs of this
/// library need: every entity is one flat object of these, or an array of
/// such objects.
#[derive(Debug, Clone, PartialEq, Eq)]
pub enum JsonScalar {
    Null,
    Bool(bool),
    Int(i64),
    Str(String),
}

/// The mathematical value of a scalar.
pub enum ScalarV {
    Null,
    Bool(bool),
    Int(int),
    Str(Seq<char>),
}

impl View for JsonScalar {
    type V = ScalarV;

    open spec fn view(&self) -> ScalarV {
        match self {
            JsonScalar::Null => ScalarV::Null,
            JsonScalar::Bool(b) => ScalarV::Bool(*b),
            JsonScalar::Int(i) => ScalarV::Int(*i as int),
            JsonScalar::Str(s) => ScalarV::Str(s@),
        }
    }
}

impl DeepView for JsonScalar {
    type V = ScalarV;

    open spec fn deep_view(&self) -> ScalarV {
        self.view()
    }
}

/// One member of a flat JSON object.
#[derive(Debug, Clone, PartialEq, Eq)]
pub struct JsonField {
    pub key: String,
    pub value: JsonScalar,
}

/// The mathematical value of an object member.
pub struct FieldV {
    pub key: Seq<char>,
    pub value: ScalarV,
}

impl View for JsonField {
    type V = FieldV;

    open spec fn view(&self) -> FieldV {
        FieldV { key: self.key@, value: self.value@ }
    }
}

impl DeepView for JsonField {
    type V = FieldV;

    open spec fn deep_view(&self) -> FieldV {
        self.view()
    }
}

/// The first value bound to `key` in an object's members, if any.
pub open spec fn field_lookup(fs: Seq<FieldV>, key: Seq<char>) -> Option<ScalarV>
    decreases fs.len(),
{
    if fs.len() == 0 {
        None
    } else if fs[0].key == key {
        Some(fs[0].value)
    } else {
        field_lookup(fs.skip(1), key)
    }
}

// ---------------------------------------------------------------------------
// Serialization: the canonical compact encoding
// ---------------------------------------------------------------------------

/// How one character is written inside a JSON string: the five
/// two-character named escapes; every other character stands for itself.
pub open spec fn esc_char(c: char) -> Seq<char> {
    if c == '"' {
        seq!['\\', '"']
    } else if c == '\\' {
        seq!['\\', '\\']
    } else if c == '\n' {
        seq!['\\', 'n']
    } else if c == '\r' {
        seq!['\\', 'r']
    } else if c == '\t' {
        seq!['\\', 't']
    } else {
        seq![c]
    }
}

/// The escaped body of a JSON string.
pub open spec fn esc(s: Seq<char>) -> Seq<char>
    decreases s.len(),
{
    if s.len() == 0 {
        Seq::empty()
    } else {
        esc_char(s[0]) + esc(s.skip(1))
    }
}

/// The decimal digit characters.
pub open spec fn digit_char(d: int) -> char {
    if d == 0 { '0' }
    else if d == 1 { '1' }
    else if d == 2 { '2' }
    else if d == 3 { '3' }
    else if d == 4 { '4' }
    else if d == 5 { '5' }
    else if d == 6 { '6' }
    else if d == 7 { '7' }
    else if d == 8 { '8' }
    else { '9' }
}

/// The numeric value of a digit character, or -1 for any other character.
pub open spec fn digit_val(c: char) -> int {
    if c == '0' { 0 }
    else if c == '1' { 1 }
    else if c == '2' { 2 }
    else if c == '3' { 3 }
    else if c == '4' { 4 }
    else if c == '5' { 5 }
    else if c == '6' { 6 }
    else if c == '7' { 7 }
    else if c == '8' { 8 }
    else if c == '9' { 9 }
    else { -1 }
}

pub open spec fn is_digit(c: char) -> bool {
    digit_val(c) >= 0
}

/// The decimal digits of `n`, most significant first.
pub open spec fn digits_of(n: nat) -> Seq<char>
    decreases n,
{
    if n < 10 {
        seq![digit_char(n as int)]
    } else {
        digits_of(n / 10) + seq![digit_char((n % 10) as int)]
    }
}

/// The canonical text of an integer: a minus sign for negatives, then the
/// decimal digits of the magnitude.
pub open spec fn ser_int(i: int) -> Seq<char> {
    if i < 0 {
        seq!['-'] + digits_of((-i) as nat)
    } else {
        digits_of(i as nat)
    }
}

/// The canonical text of a scalar.
pub open spec fn ser_scalar(v: ScalarV) -> Seq<char> {
    match v {
        ScalarV::Null => "null"@,
        ScalarV::Bool(b) => if b { "true"@ } else { "false"@ },
        ScalarV::Int(i) => ser_int(i),
        ScalarV::Str(s) => seq!['"'] + esc(s) + seq!['"'],
    }
}

/// The canonical text of one object member: `"key":value`.
pub open spec fn ser_field(f: FieldV) -> Seq<char> {
    seq!['"'] + esc(f.key) + seq!['"', ':'] + ser_scalar(f.value)
}

/// The canonical text of an object's members, comma-separated.
pub open spec fn ser_members(fs: Seq<FieldV>) -> Seq<char>
    decreases fs.len(),
{
    if fs.len() == 0 {
        Seq::empty()
    } else if fs.len() == 1 {
        ser_field(fs[0])
    } else {
        ser_field(fs[0]) + seq![','] + ser_members(fs.skip(1))
    }
}

/// The canonical compact text of a flat object.
pub open spec fn ser_obj(fs: Seq<FieldV>) -> Seq<char> {
    seq!['{'] + ser_members(fs) + seq!['}']
}

/// The canonical text of an array's elements, each a flat object.
pub open spec fn ser_elems(os: Seq<Seq<FieldV>>) -> Seq<char>
    decreases os.len(),
{
    if os.len() == 0 {
        Seq::empty()
    } else if os.len() == 1 {
        ser_obj(os[0])
    } else {
        ser_obj(os[0]) + seq![','] + ser_elems(os.skip(1))
    }
}

/// The canonical compact text of an array of flat objects.
pub open spec fn ser_obj_arr(os: Seq<Seq<FieldV>>) -> Seq<char> {
    seq!['['] + ser_elems(os) + seq![']']
}

// ---------------------------------------------------------------------------
// Serialization: executable writers
// ---------------------------------------------------------------------------

/// Writing a character sequence one character at a time appends one
/// escape unit at a time on the right.
proof fn lemma_esc_push(s: Seq<char>, c: char)
    ensures
        esc(s.push(c)) == esc(s) + esc_char(c),
    decreases s.len(),
{
    if s.len() == 0 {
        assert(s.push(c)[0] == c);
        assert(s.push(c).skip(1) =~= Seq::<char>::empty());
        assert(esc(s.push(c)) =~= esc_char(c) + esc(Seq::<char>::empty()));
        assert(esc(s.push(c)) =~= esc_char(c));
        assert(esc(s) + esc_char(c) =~= esc_char(c));
    } else {
        lemma_esc_push(s.skip(1), c);
        assert(s.push(c).skip(1) =~= s.skip(1).push(c));
        assert(esc(s.push(c)) =~= esc_char(s[0]) + esc(s.skip(1).push(c)));
        assert(esc(s.push(c)) =~= esc(s) + esc_char(c));
    }
}

/// Appends the escaped body of `s` to `out`.
fn write_escaped(s: &str, out: &mut Vec<char>)
    ensures
        final(out)@ == old(out)@ + esc(s@),
{
    let n = s.unicode_len();
    let mut i: usize = 0;
    proof {
        assert(s@.take(0) =~= Seq::<char>::empty());
        assert(out@ =~= old(out)@ + esc(s@.take(0)));
    }
    while i < n
        invariant
            n == s@.len(),
            i <= n,
            out@ == old(out)@ + esc(s@.take(i as int)),
        decreases n - i,
    {
        let c = s.get_char(i);
        if c == '"' {
            out.push('\\');
            out.push('"');
        } else if c == '\\' {
            out.push('\\');
            out.push('\\');
        } else if c == '\n' {
            out.push('\\');
            out.push('n');
        } else if c == '\r' {
            out.push('\\');
            out.push('r');
        } else if c == '\t' {
            out.push('\\');
            out.push('t');
        } else {
            out.push(c);
        }
        proof {
            lemma_esc_push(s@.take(i as int), c);
            assert(s@.take(i + 1) =~= s@.take(i as int).push(c));
            assert(out@ =~= old(out)@ + esc(s@.take(i + 1)));
        }
        i += 1;
    }
    proof {
        assert(s@.take(n as int) =~= s@);
    }
}

/// The digit character for `d`, which must be below ten.
fn digit_char_exec(d: u64) -> (r: char)
    requires
        d < 10,
    ensures
        r == digit_char(d as int),
{
    if d == 0 { '0' }
    else if d == 1 { '1' }
    else if d == 2 { '2' }
    else if d == 3 { '3' }
    else if d == 4 { '4' }
    else if d == 5 { '5' }
    else if d == 6 { '6' }
    else if d == 7 { '7' }
    else if d == 8 { '8' }
    else { '9' }
}

/// Appends the decimal digits of `n` to `out`, most significant first.
fn write_digits(n: u64, out: &mut Vec<char>)
    ensures
        final(out)@ == old(out)@ + digits_of(n as nat),
    decreases n,
{
    if n < 10 {
        out.push(digit_char_exec(n));
        proof {
            assert(out@ =~= old(out)@ + digits_of(n as nat));
        }
    } else {
        write_digits(n / 10, out);
        out.push(digit_char_exec(n % 10));
        proof {
            assert(out@ =~= old(out)@ + digits_of(n as nat));
        }
    }
}

/// Appends the canonical text of the integer `i` to `out`.
fn write_int(i: i64, out: &mut Vec<char>)
    ensures
        final(out)@ == old(out)@ + ser_int(i as int),
{
    if i >= 0 {
        write_digits(i as u64, out);
    } else {
        out.push('-');
        let mag: u64 = if i == i64::MIN {
            9223372036854775808u64
        } else {
            (-i) as u64
        };
        proof {
            assert(mag as nat == (-(i as int)) as nat);
        }
        write_digits(mag, out);
        proof {
            assert(out@ =~= old(out)@ + ser_int(i as int));
        }
    }
}

/// Appends the canonical text of a scalar to `out`.
fn write_scalar(v: &JsonScalar, out: &mut Vec<char>)
    ensures
        final(out)@ == old(out)@ + ser_scalar(v@),
{
    match v {
        JsonScalar::Null => {
            out.push('n');
            out.push('u');
            out.push('l');
            out.push('l');
            proof {
                reveal_strlit("null");
                assert(out@ =~= old(out)@ + ser_scalar(v@));
            }
        },
        JsonScalar::Bool(b) => {
            if *b {
                out.push('t');
                out.push('r');
                out.push('u');
                out.push('e');
                proof {
                    reveal_strlit("true");
                    assert(out@ =~= old(out)@ + ser_scalar(v@));
                }
            } else {
                out.push('f');
                out.push('a');
                out.push('l');
                out.push('s');
                out.push('e');
                proof {
                    reveal_strlit("false");
                    assert(out@ =~= old(out)@ + ser_scalar(v@));
                }
            }
        },
        JsonScalar::Int(i) => {
            write_int(*i, out);
        },
        JsonScalar::Str(s) => {
            out.push('"');
            write_escaped(s.as_str(), out);
            out.push('"');
            proof {
                assert(out@ =~= old(out)@ + ser_scalar(v@));
            }
        },
    }
}

/// Appends `"key":value` for one member to `out`.
fn write_field(f: &JsonField, out: &mut Vec<char>)
    ensures
        final(out)@ == old(out)@ + ser_field(f@),
{
    out.push('"');
    write_escaped(f.key.as_str(), out);
    out.push('"');
    out.push(':');
    write_scalar(&f.value, out);
    proof {
        assert(out@ =~= old(out)@ + ser_field(f@));
    }
}

/// Appends the members of `fs` starting at `k`, comma-separated, to `out`.
fn write_members_from(fs: &Vec<JsonField>, k: usize, out: &mut Vec<char>)
    requires
        k < fs@.len(),
    ensures
        final(out)@ == old(out)@ + ser_members(fs.deep_view().skip(k as int)),
    decreases fs@.len() - k,
{
    let len = fs.len();
    write_field(&fs[k], out);
    if k + 1 < len {
        out.push(',');
        write_members_from(fs, k + 1, out);
        proof {
            let tail = fs.deep_view().skip(k as int);
            assert(tail[0] == fs.deep_view()[k as int]);
            assert(tail.skip(1) =~= fs.deep_view().skip(k + 1));
            assert(tail.len() >= 2);
            assert(out@ =~= old(out)@ + ser_members(tail));
        }
    } else {
        proof {
            let tail = fs.deep_view().skip(k as int);
            assert(tail.len() == 1);
            assert(tail[0] == fs.deep_view()[k as int]);
            assert(out@ =~= old(out)@ + ser_members(tail));
        }
    }
}

/// Writes the canonical compact text of a flat object.
pub fn write_obj(fs: &Vec<JsonField>) -> (r: Vec<char>)
    ensures
        r@ == ser_obj(fs.deep_view()),
{
    let mut out: Vec<char> = Vec::new();
    out.push('{');
    if fs.len() > 0 {
        write_members_from(fs, 0, &mut out);
        proof {
            assert(fs.deep_view().skip(0) =~= fs.deep_view());
        }
    }
    out.push('}');
    proof {
        if fs.deep_view().len() == 0 {
            assert(ser_members(fs.deep_view()) =~= Seq::<char>::empty());
        }
        assert(out@ =~= ser_obj(fs.deep_view()));
    }
    out
}

// ---------------------------------------------------------------------------
// Parsing: the grammar, at the specification level
// ---------------------------------------------------------------------------

/// The literal `l` stands in `s` at index `i`.
pub open spec fn lit_at(s: Seq<char>, i: int, l: Seq<char>) -> bool {
    0 <= i && i + l.len() <= s.len() && s.subrange(i, i + l.len() as int) == l
}

/// Parses a JSON string body (after the opening quote) up to and over the
/// closing quote, unescaping as it goes; `acc` holds what was read so far.
pub open spec fn sp_strbody(s: Seq<char>, i: int, acc: Seq<char>) -> Option<(Seq<char>, int)>
    decreases s.len() - i,
{
    if i < 0 || i >= s.len() {
        None
    } else if s[i] == '"' {
        Some((acc, i + 1))
    } else if s[i] == '\\' {
        if i + 1 < s.len() {
            if s[i + 1] == '"' {
                sp_strbody(s, i + 2, acc.push('"'))
            } else if s[i + 1] == '\\' {
                sp_strbody(s, i + 2, acc.push('\\'))
            } else if s[i + 1] == 'n' {
                sp_strbody(s, i + 2, acc.push('\n'))
            } else if s[i + 1] == 'r' {
                sp_strbody(s, i + 2, acc.push('\r'))
            } else if s[i + 1] == 't' {
                sp_strbody(s, i + 2, acc.push('\t'))
            } else if s[i + 1] == '/' {
                sp_strbody(s, i + 2, acc.push('/'))
            } else {
                None
            }
        } else {
            None
        }
    } else {
        sp_strbody(s, i + 1, acc.push(s[i]))
    }
}

/// Consumes decimal digits, accumulating their value onto `acc`; stops at
/// the first non-digit. Never fails; returns the value and the stop index.
pub open spec fn sp_digits(s: Seq<char>, i: int, acc: nat) -> (nat, int)
    decreases s.len() - i,
{
    if 0 <= i && i < s.len() && is_digit(s[i]) {
        sp_digits(s, i + 1, acc * 10 + digit_val(s[i]) as nat)
    } else {
        (acc, i)
    }
}

/// Parses an optionally signed decimal integer, unbounded.
pub open spec fn sp_int(s: Seq<char>, i: int) -> Option<(int, int)> {
    if 0 <= i && i < s.len() && s[i] == '-' {
        if i + 1 < s.len() && is_digit(s[i + 1]) {
            let (n, j) = sp_digits(s, i + 1, 0);
            Some((-(n as int), j))
        } else {
            None
        }
    } else if 0 <= i && i < s.len() && is_digit(s[i]) {
        let (n, j) = sp_digits(s, i, 0);
        Some((n as int, j))
    } else {
        None
    }
}

/// Parses one scalar. An integer outside the `i64` range is a parse
/// failure, not a truncation.
pub open spec fn sp_scalar(s: Seq<char>, i: int) -> Option<(ScalarV, int)> {
    if i < 0 || i >= s.len() {
        None
    } else if s[i] == '"' {
        match sp_strbody(s, i + 1, Seq::empty()) {
            Some((body, j)) => Some((ScalarV::Str(body), j)),
            None => None,
        }
    } else if s[i] == 'n' {
        if lit_at(s, i, "null"@) {
            Some((ScalarV::Null, i + 4))
        } else {
            None
        }
    } else if s[i] == 't' {
        if lit_at(s, i, "true"@) {
            Some((ScalarV::Bool(true), i + 4))
        } else {
            None
        }
    } else if s[i] == 'f' {
        if lit_at(s, i, "false"@) {
            Some((ScalarV::Bool(false), i + 5))
        } else {
            None
        }
    } else {
        match sp_int(s, i) {
            Some((v, j)) => if i64::MIN <= v <= i64::MAX {
                Some((ScalarV::Int(v), j))
            } else {
                None
            },
            None => None,
        }
    }
}

/// Parses one `"key":value` member.
pub open spec fn sp_field(s: Seq<char>, i: int) -> Option<(FieldV, int)> {
    if 0 <= i && i < s.len() && s[i] == '"' {
        match sp_strbody(s, i + 1, Seq::empty()) {
            Some((key, j)) => if j < s.len() && s[j] == ':' {
                match sp_scalar(s, j + 1) {
                    Some((v, m)) => Some((FieldV { key: key, value: v }, m)),
                    None => None,
                }
            } else {
                None
            },
            None => None,
        }
    } else {
        None
    }
}

/// Parses comma-separated members up to (but not over) the closing brace.
pub open spec fn sp_members(s: Seq<char>, i: int, acc: Seq<FieldV>) -> Option<
    (Seq<FieldV>, int),
>
    decreases s.len() - i,
{
    match sp_field(s, i) {
        None => None,
        Some((f, j)) => if i < j && j <= s.len() {
            if j < s.len() && s[j] == ',' {
                sp_members(s, j + 1, acc.push(f))
            } else {
                Some((acc.push(f), j))
            }
        } else {
            None
        },
    }
}

/// Parses one flat object, braces included.
pub open spec fn sp_obj(s: Seq<char>, i: int) -> Option<(Seq<FieldV>, int)> {
    if 0 <= i && i < s.len() && s[i] == '{' {
        if i + 1 < s.len() && s[i + 1] == '}' {
            Some((Seq::empty(), i + 2))
        } else {
            match sp_members(s, i + 1, Seq::empty()) {
                Some((fs, j)) => if j < s.len() && s[j] == '}' {
                    Some((fs, j + 1))
                } else {
                    None
                },
                None => None,
            }
        }
    } else {
        None
    }
}

/// Parses comma-separated objects up to (but not over) the closing bracket.
pub open spec fn sp_elems(s: Seq<char>, i: int, acc: Seq<Seq<FieldV>>) -> Option<
    (Seq<Seq<FieldV>>, int),
>
    decreases s.len() - i,
{
    match sp_obj(s, i) {
        None => None,
        Some((o, j)) => if i < j && j <= s.len() {
            if j < s.len() && s[j] == ',' {
                sp_elems(s, j + 1, acc.push(o))
            } else {
                Some((acc.push(o), j))
            }
        } else {
            None
        },
    }
}

/// Parses one array of flat objects, brackets included.
pub open spec fn sp_obj_arr(s: Seq<char>, i: int) -> Option<(Seq<Seq<FieldV>>, int)> {
    if 0 <= i && i < s.len() && s[i] == '[' {
        if i + 1 < s.len() && s[i + 1] == ']' {
            Some((Seq::empty(), i + 2))
        } else {
            match sp_elems(s, i + 1, Seq::empty()) {
                Some((os, j)) => if j < s.len() && s[j] == ']' {
                    Some((os, j + 1))
                } else {
                    None
                },
                None => None,
            }
        }
    } else {
        None
    }
}

// ---------------------------------------------------------------------------
// Parsing: executable mirrors of the grammar
// ---------------------------------------------------------------------------

/// The numeric value of a digit character, if it is one.
fn digit_val_exec(c: char) -> (r: Option<u64>)
    ensures
        r matches Some(d) ==> is_digit(c) && d == digit_val(c),
        r is None ==> !is_digit(c),
{
    if c == '0' { Some(0) }
    else if c == '1' { Some(1) }
    else if c == '2' { Some(2) }
    else if c == '3' { Some(3) }
    else if c == '4' { Some(4) }
    else if c == '5' { Some(5) }
    else if c == '6' { Some(6) }
    else if c == '7' { Some(7) }
    else if c == '8' { Some(8) }
    else if c == '9' { Some(9) }
    else { None }
}

fn parse_strbody(s: &Vec<char>, i: usize, acc: Vec<char>) -> (r: Option<(Vec<char>, usize)>)
    requires
        i <= s@.len(),
    ensures
        r matches Some((v, j)) ==> sp_strbody(s@, i as int, acc@) == Some((v@, j as int)) && i
            < j <= s@.len(),
        r is None ==> sp_strbody(s@, i as int, acc@) is None,
    decreases s@.len() - i,
{
    let n: usize = s.len();
    if i >= n {
        return None;
    }
    let c = s[i];
    if c == '"' {
        Some((acc, i + 1))
    } else if c == '\\' {
        if i + 1 < n {
            let e = s[i + 1];
            let mut a = acc;
            if e == '"' {
                a.push('"');
                parse_strbody(s, i + 2, a)
            } else if e == '\\' {
                a.push('\\');
                parse_strbody(s, i + 2, a)
            } else if e == 'n' {
                a.push('\n');
                parse_strbody(s, i + 2, a)
            } else if e == 'r' {
                a.push('\r');
                parse_strbody(s, i + 2, a)
            } else if e == 't' {
                a.push('\t');
                parse_strbody(s, i + 2, a)
            } else if e == '/' {
                a.push('/');
                parse_strbody(s, i + 2, a)
            } else {
                None
            }
        } else {
            None
        }
    } else {
        let mut a = acc;
        a.push(c);
        parse_strbody(s, i + 1, a)
    }
}

/// The value past which an accumulated magnitude can no longer name an
/// `i64`: one more than `i64::MAX`.
pub open spec fn spec_mag_limit() -> nat {
    9223372036854775808nat
}

/// The accumulated value of a digit run never shrinks.
proof fn lemma_sp_digits_lower(s: Seq<char>, i: int, acc: nat)
    ensures
        sp_digits(s, i, acc).0 >= acc,
    decreases s.len() - i,
{
    if 0 <= i && i < s.len() && is_digit(s[i]) {
        lemma_sp_digits_lower(s, i + 1, acc * 10 + digit_val(s[i]) as nat);
    }
}

fn parse_digits(s: &Vec<char>, i: usize, acc: u64) -> (r: Option<(u64, usize)>)
    requires
        i <= s@.len(),
        acc as nat <= spec_mag_limit(),
    ensures
        r matches Some((v, j)) ==> sp_digits(s@, i as int, acc as nat) == (v as nat, j as int)
            && i <= j <= s@.len() && v as nat <= spec_mag_limit(),
        r is None ==> sp_digits(s@, i as int, acc as nat).0 > spec_mag_limit(),
        match r {
            Some((v, j)) => (i < s@.len() && is_digit(s@[i as int])) ==> i < j,
            None => true,
        },
    decreases s@.len() - i,
{
    let n: usize = s.len();
    if i >= n {
        return Some((acc, i));
    }
    match digit_val_exec(s[i]) {
        None => Some((acc, i)),
        Some(d) => {
            let limit: u64 = 9223372036854775808u64;
            if acc > (limit - d) / 10 {
                proof {
                    let next = (acc * 10 + d) as nat;
                    assert(acc as int * 10 + d as int > limit as int) by {
                        let q = ((limit - d) / 10) as int;
                        assert((limit - d) as int == q * 10 + ((limit - d) % 10) as int);
                        assert(((limit - d) % 10) as int <= 9);
                        assert(acc as int >= q + 1);
                        assert(acc as int * 10 >= (q + 1) * 10) by (nonlinear_arith)
                            requires acc as int >= q + 1;
                    }
                    lemma_sp_digits_lower(s@, i + 1 as int, next);
                    assert(sp_digits(s@, i as int, acc as nat) == sp_digits(s@, i + 1 as int, next));
                }
                None
            } else {
                proof {
                    let q = ((limit - d) / 10) as int;
                    assert((limit - d) as int == q * 10 + ((limit - d) % 10) as int);
                    assert(acc as int <= q);
                    assert(acc as int * 10 <= q * 10) by (nonlinear_arith)
                        requires acc as int <= q;
                    assert(acc as int * 10 + d as int <= limit as int);
                }
                parse_digits(s, i + 1, acc * 10 + d)
            }
        },
    }
}

fn parse_int(s: &Vec<char>, i: usize) -> (r: Option<(i64, usize)>)
    requires
        i <= s@.len(),
    ensures
        r matches Some((v, j)) ==> sp_int(s@, i as int) == Some((v as int, j as int)) && i < j
            <= s@.len(),
        r is None ==> match sp_int(s@, i as int) {
            None => true,
            Some((v, j)) => !(i64::MIN <= v <= i64::MAX),
        },
{
    let n: usize = s.len();
    if i >= n {
        return None;
    }
    let c = s[i];
    if c == '-' {
        if i + 1 < n && digit_val_exec(s[i + 1]).is_some() {
            match parse_digits(s, i + 1, 0) {
                None => None,
                Some((m, j)) => {
                    if m == 9223372036854775808u64 {
                        Some((i64::MIN, j))
                    } else {
                        Some((-(m as i64), j))
                    }
                },
            }
        } else {
            None
        }
    } else if digit_val_exec(c).is_some() {
        match parse_digits(s, i, 0) {
            None => None,
            Some((m, j)) => {
                if m > i64::MAX as u64 {
                    None
                } else {
                    Some((m as i64, j))
                }
            },
        }
    } else {
        None
    }
}

fn parse_scalar(s: &Vec<char>, i: usize) -> (r: Option<(JsonScalar, usize)>)
    requires
        i <= s@.len(),
    ensures
        r matches Some((v, j)) ==> sp_scalar(s@, i as int) == Some((v@, j as int)) && i < j
            <= s@.len(),
        r is None ==> sp_scalar(s@, i as int) is None,
{
    let n: usize = s.len();
    if i >= n {
        return None;
    }
    let c = s[i];
    if c == '"' {
        match parse_strbody(s, i + 1, Vec::new()) {
            Some((body, j)) => Some((JsonScalar::Str(crate::trusted::chars_to_string(&body)), j)),
            None => None,
        }
    } else if c == 'n' {
        proof {
            reveal_strlit("null");
        }
        if n - i > 3 && s[i + 1] == 'u' && s[i + 2] == 'l' && s[i + 3] == 'l' {
            proof {
                assert(s@.subrange(i as int, i + 4) =~= "null"@);
            }
            Some((JsonScalar::Null, i + 4))
        } else {
            proof {
                if lit_at(s@, i as int, "null"@) {
                    assert(s@.subrange(i as int, i + 4)[1] == s@[i + 1]);
                    assert(s@.subrange(i as int, i + 4)[2] == s@[i + 2]);
                    assert(s@.subrange(i as int, i + 4)[3] == s@[i + 3]);
                }
            }
            None
        }
    } else if c == 't' {
        proof {
            reveal_strlit("true");
        }
        if n - i > 3 && s[i + 1] == 'r' && s[i + 2] == 'u' && s[i + 3] == 'e' {
            proof {
                assert(s@.subrange(i as int, i + 4) =~= "true"@);
            }
            Some((JsonScalar::Bool(true), i + 4))
        } else {
            proof {
                if lit_at(s@, i as int, "true"@) {
                    assert(s@.subrange(i as int, i + 4)[1] == s@[i + 1]);
                    assert(s@.subrange(i as int, i + 4)[2] == s@[i + 2]);
                    assert(s@.subrange(i as int, i + 4)[3] == s@[i + 3]);
                }
            }
            None
        }
    } else if c == 'f' {
        proof {
            reveal_strlit("false");
        }
        if n - i > 4 && s[i + 1] == 'a' && s[i + 2] == 'l' && s[i + 3] == 's' && s[i + 4] == 'e' {
            proof {
                assert(s@.subrange(i as int, i + 5) =~= "false"@);
            }
            Some((JsonScalar::Bool(false), i + 5))
        } else {
            proof {
                if lit_at(s@, i as int, "false"@) {
                    assert(s@.subrange(i as int, i + 5)[1] == s@[i + 1]);
                    assert(s@.subrange(i as int, i + 5)[2] == s@[i + 2]);
                    assert(s@.subrange(i as int, i + 5)[3] == s@[i + 3]);
                    assert(s@.subrange(i as int, i + 5)[4] == s@[i + 4]);
                }
            }
            None
        }
    } else {
        match parse_int(s, i) {
            Some((v, j)) => Some((JsonScalar::Int(v), j)),
            None => None,
        }
    }
}

fn parse_field(s: &Vec<char>, i: usize) -> (r: Option<(JsonField, usize)>)
    requires
        i <= s@.len(),
    ensures
        r matches Some((f, j)) ==> sp_field(s@, i as int) == Some((f@, j as int)) && i < j
            <= s@.len(),
        r is None ==> sp_field(s@, i as int) is None,
{
    let n: usize = s.len();
    if i >= n {
        return None;
    }
    if s[i] != '"' {
        return None;
    }
    match parse_strbody(s, i + 1, Vec::new()) {
        None => None,
        Some((key, j)) => {
            if j < n && s[j] == ':' {
                match parse_scalar(s, j + 1) {
                    Some((v, m)) => Some(
                        (JsonField { key: crate::trusted::chars_to_string(&key), value: v }, m),
                    ),
                    None => None,
                }
            } else {
                None
            }
        },
    }
}

fn parse_members(s: &Vec<char>, i: usize, acc: Vec<JsonField>) -> (r: Option<
    (Vec<JsonField>, usize),
>)
    requires
        i <= s@.len(),
    ensures
        r matches Some((fs, j)) ==> sp_members(s@, i as int, acc.deep_view()) == Some(
            (fs.deep_view(), j as int),
        ) && i < j <= s@.len(),
        r is None ==> sp_members(s@, i as int, acc.deep_view()) is None,
    decreases s@.len() - i,
{
    let n: usize = s.len();
    match parse_field(s, i) {
        None => None,
        Some((f, j)) => {
            let mut a = acc;
            a.push(f);
            proof {
                assert(a.deep_view() =~= acc.deep_view().push(f@));
            }
            if j < n && s[j] == ',' {
                parse_members(s, j + 1, a)
            } else {
                Some((a, j))
            }
        },
    }
}

/// Parses a whole character sequence as one flat object; anything short
/// of a full parse of the full input is a failure.
pub fn parse_obj(s: &Vec<char>) -> (r: Option<Vec<JsonField>>)
    ensures
        r matches Some(fs) ==> sp_obj(s@, 0) == Some((fs.deep_view(), s@.len() as int)),
        r is None ==> match sp_obj(s@, 0) {
            None => true,
            Some((fs, j)) => j != s@.len(),
        },
{
    let n: usize = s.len();
    if n == 0 {
        return None;
    }
    if s[0] != '{' {
        return None;
    }
    if n > 1 && s[1] == '}' {
        if n == 2 {
            let empty_fields: Vec<JsonField> = Vec::new();
            proof {
                assert(empty_fields.deep_view() =~= Seq::<FieldV>::empty());
            }
            return Some(empty_fields);
        } else {
            return None;
        }
    }
    let acc0: Vec<JsonField> = Vec::new();
    proof {
        assert(acc0.deep_view() =~= Seq::<FieldV>::empty());
    }
    match parse_members(s, 1, acc0) {
        None => None,
        Some((fs, j)) => {
            if j < n && s[j] == '}' && j + 1 == n {
                Some(fs)
            } else {
                None
            }
        },
    }
}

/// Parses a whole character sequence as one array of flat objects.
pub fn parse_obj_arr(s: &Vec<char>) -> (r: Option<Vec<Vec<JsonField>>>)
    ensures
        r matches Some(os) ==> sp_obj_arr(s@, 0) == Some((os.deep_view(), s@.len() as int)),
        r is None ==> match sp_obj_arr(s@, 0) {
            None => true,
            Some((os, j)) => j != s@.len(),
        },
{
    let n: usize = s.len();
    if n == 0 {
        return None;
    }
    if s[0] != '[' {
        return None;
    }
    if n > 1 && s[1] == ']' {
        if n == 2 {
            let empty_objs: Vec<Vec<JsonField>> = Vec::new();
            proof {
                assert(empty_objs.deep_view() =~= Seq::<Seq<FieldV>>::empty());
            }
            return Some(empty_objs);
        } else {
            return None;
        }
    }
    let acc0: Vec<Vec<JsonField>> = Vec::new();
    proof {
        assert(acc0.deep_view() =~= Seq::<Seq<FieldV>>::empty());
    }
    match parse_elems(s, 1, acc0) {
        None => None,
        Some((os, j)) => {
            if j < n && s[j] == ']' && j + 1 == n {
                Some(os)
            } else {
                None
            }
        },
    }
}

fn parse_obj_at(s: &Vec<char>, i: usize) -> (r: Option<(Vec<JsonField>, usize)>)
    requires
        i <= s@.len(),
    ensures
        r matches Some((fs, j)) ==> sp_obj(s@, i as int) == Some((fs.deep_view(), j as int)) && i
            < j <= s@.len(),
        r is None ==> sp_obj(s@, i as int) is None,
{
    let n: usize = s.len();
    if i >= n {
        return None;
    }
    if s[i] != '{' {
        return None;
    }
    if n - i > 1 && s[i + 1] == '}' {
        let empty_fields: Vec<JsonField> = Vec::new();
        proof {
            assert(empty_fields.deep_view() =~= Seq::<FieldV>::empty());
        }
        return Some((empty_fields, i + 2));
    }
    let acc0: Vec<JsonField> = Vec::new();
    proof {
        assert(acc0.deep_view() =~= Seq::<FieldV>::empty());
    }
    match parse_members(s, i + 1, acc0) {
        None => None,
        Some((fs, j)) => {
            if j < n && s[j] == '}' {
                Some((fs, j + 1))
            } else {
                None
            }
        },
    }
}

fn parse_elems(s: &Vec<char>, i: usize, acc: Vec<Vec<JsonField>>) -> (r: Option<
    (Vec<Vec<JsonField>>, usize),
>)
    requires
        i <= s@.len(),
    ensures
        r matches Some((os, j)) ==> sp_elems(s@, i as int, acc.deep_view()) == Some(
            (os.deep_view(), j as int),
        ) && i < j <= s@.len(),
        r is None ==> sp_elems(s@, i as int, acc.deep_view()) is None,
    decreases s@.len() - i,
{
    let n: usize = s.len();
    match parse_obj_at(s, i) {
        None => None,
        Some((o, j)) => {
            let mut a = acc;
            a.push(o);
            proof {
                assert(a.deep_view() =~= acc.deep_view().push(o.deep_view()));
            }
            if j < n && s[j] == ',' {
                parse_elems(s, j + 1, a)
            } else {
                Some((a, j))
            }
        },
    }
}

// ---------------------------------------------------------------------------
// The canonical encoding parses back to what was written
// ---------------------------------------------------------------------------

/// A scalar whose integer, if any, names an `i64`.
pub open spec fn wf_scalar(v: ScalarV) -> bool {
    match v {
        ScalarV::Int(i) => i64::MIN <= i <= i64::MAX,
        _ => true,
    }
}

/// Members whose scalars are all well-formed.
pub open spec fn wf_fields(fs: Seq<FieldV>) -> bool {
    forall|k: int| 0 <= k < fs.len() ==> wf_scalar(#[trigger] fs[k].value)
}

/// Objects whose members are all well-formed.
pub open spec fn wf_objs(os: Seq<Seq<FieldV>>) -> bool {
    forall|k: int| 0 <= k < os.len() ==> wf_fields(#[trigger] os[k])
}

proof fn lemma_lit_index(s: Seq<char>, i: int, a: Seq<char>, k: int)
    requires
        lit_at(s, i, a),
        0 <= k < a.len(),
    ensures
        s[i + k] == a[k],
{
    assert(s.subrange(i, i + a.len() as int)[k] == s[i + k]);
}

proof fn lemma_lit_split(s: Seq<char>, i: int, a: Seq<char>, b: Seq<char>)
    requires
        lit_at(s, i, a + b),
    ensures
        lit_at(s, i, a),
        lit_at(s, i + a.len(), b),
{
    assert(s.subrange(i, i + a.len() as int) =~= a) by {
        assert forall|k: int| 0 <= k < a.len() implies s.subrange(i, i + a.len() as int)[k] == a[
            k
        ] by {
            assert(s.subrange(i, i + (a + b).len() as int)[k] == (a + b)[k]);
            assert((a + b)[k] == a[k]);
        }
    }
    assert(s.subrange(i + a.len(), i + a.len() + b.len() as int) =~= b) by {
        assert forall|k: int| 0 <= k < b.len() implies s.subrange(
            i + a.len(),
            i + a.len() + b.len() as int,
        )[k] == b[k] by {
            assert(s.subrange(i, i + (a + b).len() as int)[a.len() + k] == (a + b)[a.len() + k]);
            assert((a + b)[a.len() + k] == b[k]);
        }
    }
}

/// Ten to the `n`.
pub open spec fn pow10(n: nat) -> nat
    decreases n,
{
    if n == 0 {
        1
    } else {
        10 * pow10((n - 1) as nat)
    }
}

proof fn lemma_digit_char_val(d: int)
    requires
        0 <= d <= 9,
    ensures
        digit_val(digit_char(d)) == d,
        is_digit(digit_char(d)),
{
}

/// Running the digit consumer over the written digits of `n` multiplies
/// the accumulator along and adds `n`.
proof fn lemma_sp_digits_run(s: Seq<char>, i: int, acc: nat, n: nat)
    requires
        lit_at(s, i, digits_of(n)),
    ensures
        sp_digits(s, i, acc) == sp_digits(
            s,
            i + digits_of(n).len(),
            (acc * pow10(digits_of(n).len()) + n) as nat,
        ),
    decreases n,
{
    if n < 10 {
        lemma_digit_char_val(n as int);
        lemma_lit_index(s, i, digits_of(n), 0);
        assert(s[i] == digit_char(n as int));
        assert(pow10(0) == 1);
        assert(pow10(1) == 10);
        assert(digits_of(n).len() == 1);
        assert(acc * 10 + n == acc * pow10(1) + n) by (nonlinear_arith)
            requires
                pow10(1) == 10,
        ;
        assert(sp_digits(s, i, acc) == sp_digits(s, i + 1, (acc * 10 + n) as nat));
    } else {
        let a = digits_of(n / 10);
        let c = digit_char((n % 10) as int);
        assert(digits_of(n) == a + seq![c]);
        lemma_lit_split(s, i, a, seq![c]);
        lemma_sp_digits_run(s, i, acc, n / 10);
        let mid = (acc * pow10(a.len()) + n / 10) as nat;
        lemma_digit_char_val((n % 10) as int);
        lemma_lit_index(s, i + a.len(), seq![c], 0);
        assert(s[i + a.len()] == c);
        assert(sp_digits(s, i + a.len(), mid) == sp_digits(
            s,
            i + a.len() + 1,
            (mid * 10 + n % 10) as nat,
        ));
        assert(digits_of(n).len() == a.len() + 1);
        assert(pow10(a.len() + 1) == 10 * pow10(a.len()));
        assert(mid * 10 + n % 10 == acc * pow10(a.len() + 1) + n) by (nonlinear_arith)
            requires
                mid == acc * pow10(a.len()) + n / 10,
                pow10(a.len() + 1) == 10 * pow10(a.len()),
                n == (n / 10) * 10 + n % 10,
        ;
        assert(n == (n / 10) * 10 + n % 10) by (nonlinear_arith);
    }
}

proof fn lemma_digits_of_first(n: nat)
    ensures
        digits_of(n).len() >= 1,
        is_digit(digits_of(n)[0]),
    decreases n,
{
    if n < 10 {
        lemma_digit_char_val(n as int);
    } else {
        lemma_digits_of_first(n / 10);
        assert(digits_of(n)[0] == digits_of(n / 10)[0]);
    }
}

/// After the written digits of `n`, if no digit follows, the consumer
/// stops with exactly `n` on an empty accumulator.
proof fn lemma_sp_digits_ser(s: Seq<char>, i: int, n: nat)
    requires
        lit_at(s, i, digits_of(n)),
        i + digits_of(n).len() == s.len() || !is_digit(s[i + digits_of(n).len()]),
    ensures
        sp_digits(s, i, 0) == (n, i + digits_of(n).len()),
{
    lemma_sp_digits_run(s, i, 0, n);
    let b = i + digits_of(n).len() as int;
    assert(0 * pow10(digits_of(n).len()) == 0) by (nonlinear_arith);
    assert(sp_digits(s, b, n) == (n, b));
}

/// After the written text of integer `v`, if no digit follows, the
/// integer parser returns exactly `v`.
proof fn lemma_sp_int_ser(s: Seq<char>, i: int, v: int)
    requires
        lit_at(s, i, ser_int(v)),
        i + ser_int(v).len() == s.len() || !is_digit(s[i + ser_int(v).len()]),
    ensures
        sp_int(s, i) == Some((v, i + ser_int(v).len())),
{
    if v < 0 {
        let m = (-v) as nat;
        assert(ser_int(v) == seq!['-'] + digits_of(m));
        lemma_lit_split(s, i, seq!['-'], digits_of(m));
        lemma_lit_index(s, i, seq!['-'], 0);
        assert(s[i] == '-');
        lemma_digits_of_first(m);
        lemma_lit_index(s, i + 1, digits_of(m), 0);
        assert(is_digit(s[i + 1]));
        lemma_sp_digits_ser(s, i + 1, m);
    } else {
        let m = v as nat;
        lemma_digits_of_first(m);
        lemma_lit_index(s, i, digits_of(m), 0);
        assert(is_digit(s[i]));
        assert(s[i] != '-');
        lemma_sp_digits_ser(s, i, m);
    }
}

/// After the escaped body of `c` and a closing quote, the string-body
/// parser returns the accumulator followed by `c`.
proof fn lemma_sp_strbody_ser(s: Seq<char>, i: int, acc: Seq<char>, c: Seq<char>)
    requires
        lit_at(s, i, esc(c) + seq!['"']),
    ensures
        sp_strbody(s, i, acc) == Some((acc + c, i + esc(c).len() + 1)),
    decreases c.len(),
{
    if c.len() == 0 {
        assert(esc(c) + seq!['"'] =~= seq!['"']);
        lemma_lit_index(s, i, seq!['"'], 0);
        assert(s[i] == '"');
        assert(acc + c =~= acc);
    } else {
        let c0 = c[0];
        let rest = c.skip(1);
        assert(esc(c) == esc_char(c0) + esc(rest));
        assert(esc(c) + seq!['"'] =~= esc_char(c0) + (esc(rest) + seq!['"']));
        lemma_lit_split(s, i, esc_char(c0), esc(rest) + seq!['"']);
        let i2 = i + esc_char(c0).len() as int;
        if c0 == '"' || c0 == '\\' || c0 == '\n' || c0 == '\r' || c0 == '\t' {
            lemma_lit_index(s, i, esc_char(c0), 0);
            lemma_lit_index(s, i, esc_char(c0), 1);
            assert(s[i] == '\\');
            lemma_sp_strbody_ser(s, i + 2, acc.push(c0), rest);
            assert(acc.push(c0) + rest =~= acc + c);
            assert(sp_strbody(s, i, acc) == sp_strbody(s, i + 2, acc.push(c0)));
        } else {
            lemma_lit_index(s, i, esc_char(c0), 0);
            assert(s[i] == c0);
            lemma_sp_strbody_ser(s, i + 1, acc.push(c0), rest);
            assert(acc.push(c0) + rest =~= acc + c);
            assert(sp_strbody(s, i, acc) == sp_strbody(s, i + 1, acc.push(c0)));
        }
    }
}

/// After the written text of a well-formed scalar, with no digit
/// following, the scalar parser returns exactly that scalar.
proof fn lemma_sp_scalar_ser(s: Seq<char>, i: int, v: ScalarV)
    requires
        lit_at(s, i, ser_scalar(v)),
        wf_scalar(v),
        i + ser_scalar(v).len() == s.len() || !is_digit(s[i + ser_scalar(v).len()]),
    ensures
        sp_scalar(s, i) == Some((v, i + ser_scalar(v).len())),
{
    reveal_strlit("null");
    reveal_strlit("true");
    reveal_strlit("false");
    match v {
        ScalarV::Null => {
            lemma_lit_index(s, i, "null"@, 0);
            assert(s[i] == 'n');
        },
        ScalarV::Bool(b) => {
            if b {
                lemma_lit_index(s, i, "true"@, 0);
                assert(s[i] == 't');
            } else {
                lemma_lit_index(s, i, "false"@, 0);
                assert(s[i] == 'f');
            }
        },
        ScalarV::Int(iv) => {
            lemma_sp_int_ser(s, i, iv);
            if iv < 0 {
                lemma_lit_index(s, i, ser_int(iv), 0);
                assert(s[i] == '-');
            } else {
                lemma_digits_of_first(iv as nat);
                lemma_lit_index(s, i, ser_int(iv), 0);
                assert(is_digit(s[i]));
            }
        },
        ScalarV::Str(body) => {
            assert(ser_scalar(v) =~= seq!['"'] + (esc(body) + seq!['"']));
            lemma_lit_split(s, i, seq!['"'], esc(body) + seq!['"']);
            lemma_lit_index(s, i, seq!['"'], 0);
            assert(s[i] == '"');
            lemma_sp_strbody_ser(s, i + 1, Seq::empty(), body);
            assert(Seq::empty() + body =~= body);
        },
    }
}

/// After the written text of one member, with no digit following, the
/// member parser returns exactly that member.
proof fn lemma_sp_field_ser(s: Seq<char>, i: int, f: FieldV)
    requires
        lit_at(s, i, ser_field(f)),
        wf_scalar(f.value),
        i + ser_field(f).len() == s.len() || !is_digit(s[i + ser_field(f).len()]),
    ensures
        sp_field(s, i) == Some((f, i + ser_field(f).len())),
        ser_field(f).len() >= 4,
{
    assert(ser_field(f) =~= seq!['"'] + ((esc(f.key) + seq!['"']) + (seq![':'] + ser_scalar(
        f.value,
    ))));
    lemma_lit_split(s, i, seq!['"'], (esc(f.key) + seq!['"']) + (seq![':'] + ser_scalar(f.value)));
    lemma_lit_index(s, i, seq!['"'], 0);
    assert(s[i] == '"');
    lemma_lit_split(s, i + 1, esc(f.key) + seq!['"'], seq![':'] + ser_scalar(f.value));
    let j = i + 1 + esc(f.key).len() + 1;
    lemma_sp_strbody_ser(s, i + 1, Seq::empty(), f.key);
    assert(Seq::empty() + f.key =~= f.key);
    lemma_lit_split(s, j, seq![':'], ser_scalar(f.value));
    lemma_lit_index(s, j, seq![':'], 0);
    assert(s[j] == ':');
    lemma_sp_scalar_ser(s, j + 1, f.value);
}

/// After the written members, with a closing brace following, the member
/// parser returns the accumulator followed by exactly those members.
proof fn lemma_sp_members_ser(s: Seq<char>, i: int, acc: Seq<FieldV>, fs: Seq<FieldV>)
    requires
        fs.len() >= 1,
        wf_fields(fs),
        lit_at(s, i, ser_members(fs)),
        i + ser_members(fs).len() < s.len(),
        s[i + ser_members(fs).len()] == '}',
    ensures
        sp_members(s, i, acc) == Some((acc + fs, i + ser_members(fs).len())),
    decreases fs.len(),
{
    let b = i + ser_members(fs).len() as int;
    if fs.len() == 1 {
        assert(ser_members(fs) == ser_field(fs[0]));
        lemma_sp_field_ser(s, i, fs[0]);
        assert(s[b] == '}');
        assert(acc.push(fs[0]) =~= acc + fs);
    } else {
        assert(ser_members(fs) == ser_field(fs[0]) + seq![','] + ser_members(fs.skip(1)));
        assert(ser_members(fs) =~= ser_field(fs[0]) + (seq![','] + ser_members(fs.skip(1))));
        lemma_lit_split(s, i, ser_field(fs[0]), seq![','] + ser_members(fs.skip(1)));
        let j = i + ser_field(fs[0]).len() as int;
        lemma_lit_split(s, j, seq![','], ser_members(fs.skip(1)));
        lemma_lit_index(s, j, seq![','], 0);
        assert(s[j] == ',');
        lemma_sp_field_ser(s, i, fs[0]);
        assert(wf_fields(fs.skip(1))) by {
            assert(forall|k: int| 0 <= k < fs.skip(1).len() ==> #[trigger] fs.skip(1)[k] == fs[
                k + 1
            ]);
        }
        assert(fs.skip(1).len() >= 1);
        lemma_sp_members_ser(s, j + 1, acc.push(fs[0]), fs.skip(1));
        assert(acc.push(fs[0]) + fs.skip(1) =~= acc + fs);
        assert(j + 1 + ser_members(fs.skip(1)).len() == b);
    }
}

/// After the written text of a well-formed object, the object parser
/// returns exactly that object.
pub proof fn lemma_sp_obj_ser(s: Seq<char>, i: int, fs: Seq<FieldV>)
    requires
        wf_fields(fs),
        lit_at(s, i, ser_obj(fs)),
    ensures
        sp_obj(s, i) == Some((fs, i + ser_obj(fs).len())),
{
    assert(ser_obj(fs) =~= seq!['{'] + (ser_members(fs) + seq!['}']));
    lemma_lit_split(s, i, seq!['{'], ser_members(fs) + seq!['}']);
    lemma_lit_index(s, i, seq!['{'], 0);
    assert(s[i] == '{');
    lemma_lit_split(s, i + 1, ser_members(fs), seq!['}']);
    let b = i + 1 + ser_members(fs).len() as int;
    lemma_lit_index(s, b, seq!['}'], 0);
    assert(s[b] == '}');
    if fs.len() == 0 {
        assert(ser_members(fs).len() == 0);
        assert(s[i + 1] == '}');
        assert(Seq::<FieldV>::empty() =~= fs);
    } else {
        assert(ser_field(fs[0]).len() >= 1) by {
            assert(ser_field(fs[0]) == seq!['"'] + esc(fs[0].key) + seq!['"', ':'] + ser_scalar(
                fs[0].value,
            ));
        }
        assert(ser_members(fs)[0] == '"') by {
            if fs.len() == 1 {
                assert(ser_members(fs) == ser_field(fs[0]));
            }
            assert(ser_field(fs[0])[0] == '"');
        }
        lemma_lit_index(s, i + 1, ser_members(fs), 0);
        assert(s[i + 1] == '"');
        lemma_sp_members_ser(s, i + 1, Seq::empty(), fs);
        assert(Seq::<FieldV>::empty() + fs =~= fs);
    }
}

/// Looking a key up finds the member at `i` when no earlier member has
/// that key.
pub proof fn lemma_lookup_at(fs: Seq<FieldV>, k: Seq<char>, i: int)
    requires
        0 <= i < fs.len(),
        fs[i].key == k,
        forall|j: int| 0 <= j < i ==> (#[trigger] fs[j]).key != k,
    ensures
        field_lookup(fs, k) == Some(fs[i].value),
    decreases i,
{
    if i == 0 {
    } else {
        assert(fs[0].key != k);
        assert(fs.skip(1)[i - 1] == fs[i]);
        assert(forall|j: int| 0 <= j < i - 1 ==> #[trigger] fs.skip(1)[j] == fs[j + 1]);
        lemma_lookup_at(fs.skip(1), k, i - 1);
    }
}

/// Looking a key up finds nothing when no member has that key.
pub proof fn lemma_lookup_none(fs: Seq<FieldV>, k: Seq<char>)
    requires
        forall|j: int| 0 <= j < fs.len() ==> (#[trigger] fs[j]).key != k,
    ensures
        field_lookup(fs, k) is None,
    decreases fs.len(),
{
    if fs.len() > 0 {
        assert(forall|j: int| 0 <= j < fs.len() - 1 ==> #[trigger] fs.skip(1)[j] == fs[j + 1]);
        lemma_lookup_none(fs.skip(1), k);
    }
}

/// After the written elements, with a closing bracket following, the
/// element parser returns the accumulator followed by exactly those
/// objects.
proof fn lemma_sp_elems_ser(s: Seq<char>, i: int, acc: Seq<Seq<FieldV>>, os: Seq<Seq<FieldV>>)
    requires
        os.len() >= 1,
        wf_objs(os),
        lit_at(s, i, ser_elems(os)),
        i + ser_elems(os).len() < s.len(),
        s[i + ser_elems(os).len()] == ']',
    ensures
        sp_elems(s, i, acc) == Some((acc + os, i + ser_elems(os).len())),
    decreases os.len(),
{
    let b = i + ser_elems(os).len() as int;
    if os.len() == 1 {
        assert(ser_elems(os) == ser_obj(os[0]));
        lemma_sp_obj_ser(s, i, os[0]);
        assert(s[b] == ']');
        assert(acc.push(os[0]) =~= acc + os);
    } else {
        assert(ser_elems(os) == ser_obj(os[0]) + seq![','] + ser_elems(os.skip(1)));
        assert(ser_elems(os) =~= ser_obj(os[0]) + (seq![','] + ser_elems(os.skip(1))));
        lemma_lit_split(s, i, ser_obj(os[0]), seq![','] + ser_elems(os.skip(1)));
        let j = i + ser_obj(os[0]).len() as int;
        lemma_lit_split(s, j, seq![','], ser_elems(os.skip(1)));
        lemma_lit_index(s, j, seq![','], 0);
        assert(s[j] == ',');
        lemma_sp_obj_ser(s, i, os[0]);
        assert(wf_objs(os.skip(1))) by {
            assert(forall|k: int| 0 <= k < os.skip(1).len() ==> #[trigger] os.skip(1)[k] == os[
                k + 1
            ]);
        }
        assert(os.skip(1).len() >= 1);
        lemma_sp_elems_ser(s, j + 1, acc.push(os[0]), os.skip(1));
        assert(acc.push(os[0]) + os.skip(1) =~= acc + os);
        assert(j + 1 + ser_elems(os.skip(1)).len() == b);
    }
}

/// After the written text of a well-formed array of flat objects, the
/// array parser returns exactly those objects.
pub proof fn lemma_sp_obj_arr_ser(s: Seq<char>, i: int, os: Seq<Seq<FieldV>>)
    requires
        wf_objs(os),
        lit_at(s, i, ser_obj_arr(os)),
    ensures
        sp_obj_arr(s, i) == Some((os, i + ser_obj_arr(os).len())),
{
    assert(ser_obj_arr(os) =~= seq!['['] + (ser_elems(os) + seq![']']));
    lemma_lit_split(s, i, seq!['['], ser_elems(os) + seq![']']);
    lemma_lit_index(s, i, seq!['['], 0);
    assert(s[i] == '[');
    lemma_lit_split(s, i + 1, ser_elems(os), seq![']']);
    let b = i + 1 + ser_elems(os).len() as int;
    lemma_lit_index(s, b, seq![']'], 0);
    assert(s[b] == ']');
    if os.len() == 0 {
        assert(ser_elems(os).len() == 0);
        assert(s[i + 1] == ']');
        assert(Seq::<Seq<FieldV>>::empty() =~= os);
    } else {
        assert(ser_elems(os)[0] == '{') by {
            if os.len() == 1 {
                assert(ser_elems(os) == ser_obj(os[0]));
            }
            assert(ser_obj(os[0])[0] == '{');
        }
        lemma_lit_index(s, i + 1, ser_elems(os), 0);
        assert(s[i + 1] == '{');
        lemma_sp_elems_ser(s, i + 1, Seq::empty(), os);
        assert(Seq::<Seq<FieldV>>::empty() + os =~= os);
    }
}

/// Parsing the canonical compact text of a well-formed array of flat
/// objects gives back exactly its objects: the array codec round-trips.
pub proof fn lemma_obj_arr_round_trip(os: Seq<Seq<FieldV>>)
    requires
        wf_objs(os),
    ensures
        sp_obj_arr(ser_obj_arr(os), 0) == Some((os, ser_obj_arr(os).len() as int)),
{
    let s = ser_obj_arr(os);
    assert(s.subrange(0, s.len() as int) =~= s);
    assert(lit_at(s, 0, s));
    lemma_sp_obj_arr_ser(s, 0, os);
}

/// Parsing the canonical compact text of a well-formed flat object gives
/// back exactly its members: the object codec round-trips.
pub proof fn lemma_obj_round_trip(fs: Seq<FieldV>)
    requires
        wf_fields(fs),
    ensures
        sp_obj(ser_obj(fs), 0) == Some((fs, ser_obj(fs).len() as int)),
{
    let s = ser_obj(fs);
    assert(s.subrange(0, s.len() as int) =~= s);
    assert(lit_at(s, 0, s));
    lemma_sp_obj_ser(s, 0, fs);
}

} // verus!
