//! The pump station: reading console lines and keeping each pump to one
//! charge in flight at a time.

use vstd::prelude::*;

use crate::node::messages::StationToNodeMsg;

verus! {

/// Whether a byte is ASCII whitespace.
pub open spec fn is_ws(b: u8) -> bool {
    b == 32 || (9 <= b && b <= 13)
}

/// Whether a byte is an ASCII digit.
pub open spec fn is_digit(b: u8) -> bool {
    48 <= b && b <= 57
}

/// Whether three bytes encode a whitespace character in UTF-8 (U+1680,
/// U+2000 to U+200A, U+2028, U+2029, U+202F, U+205F, U+3000).
pub open spec fn is_ws3(a: u8, b: u8, c: u8) -> bool {
    ||| a == 0xE1 && b == 0x9A && c == 0x80
    ||| a == 0xE2 && b == 0x80 && ((0x80 <= c && c <= 0x8A) || c == 0xA8 || c == 0xA9 || c == 0xAF)
    ||| a == 0xE2 && b == 0x81 && c == 0x9F
    ||| a == 0xE3 && b == 0x80 && c == 0x80
}

/// The length in bytes of the whitespace character (as std's
/// `char::is_whitespace` counts it) that starts at position `i` of UTF-8
/// text, or 0 when none does.
pub open spec fn ws_width(s: Seq<u8>, i: int) -> int {
    if i < 0 || i >= s.len() {
        0
    } else if is_ws(s[i]) {
        1
    } else if i + 1 < s.len() && s[i] == 0xC2 && (s[i + 1] == 0x85 || s[i + 1] == 0xA0) {
        2
    } else if i + 2 < s.len() && is_ws3(s[i], s[i + 1], s[i + 2]) {
        3
    } else {
        0
    }
}

/// The length in bytes of the whitespace character that ends just before
/// position `j`, or 0 when none does.
pub open spec fn ws_width_before(s: Seq<u8>, j: int) -> int {
    if j < 1 || j > s.len() {
        0
    } else if is_ws(s[j - 1]) {
        1
    } else if j >= 2 && s[j - 2] == 0xC2 && (s[j - 1] == 0x85 || s[j - 1] == 0xA0) {
        2
    } else if j >= 3 && is_ws3(s[j - 3], s[j - 2], s[j - 1]) {
        3
    } else {
        0
    }
}

/// The finished tokens with `cur` added when it is not empty.
pub open spec fn flush(done: Seq<Seq<u8>>, cur: Seq<u8>) -> Seq<Seq<u8>> {
    if cur.len() > 0 {
        done.push(cur)
    } else {
        done
    }
}

/// Splitting from position `i`, with the tokens finished so far and the
/// one being read.
pub open spec fn split_from(s: Seq<u8>, i: int, done: Seq<Seq<u8>>, cur: Seq<u8>) -> Seq<Seq<u8>>
    decreases s.len() - i,
{
    if i < 0 || i >= s.len() {
        flush(done, cur)
    } else if ws_width(s, i) > 0 {
        split_from(s, i + ws_width(s, i), flush(done, cur), Seq::empty())
    } else {
        split_from(s, i + 1, done, cur.push(s[i]))
    }
}

/// The maximal runs of non-whitespace text of a line, in order, as std's
/// `split_whitespace` gives them for UTF-8 text.
pub open spec fn tokens(s: Seq<u8>) -> Seq<Seq<u8>> {
    split_from(s, 0, Seq::empty(), Seq::empty())
}

/// Computes `ws_width(line, i)`.
fn ws_width_at(line: &Vec<u8>, i: usize) -> (w: usize)
    ensures
        w == ws_width(line@, i as int),
{
    let n = line.len();
    if i >= n {
        return 0;
    }
    let x = line[i];
    if x == 32 || (9 <= x && x <= 13) {
        return 1;
    }
    if n - i > 1 && x == 0xC2 && (line[i + 1] == 0x85 || line[i + 1] == 0xA0) {
        return 2;
    }
    if n - i > 2 {
        let y = line[i + 1];
        let z = line[i + 2];
        if (x == 0xE1 && y == 0x9A && z == 0x80) || (x == 0xE2 && y == 0x80 && ((0x80 <= z && z
            <= 0x8A) || z == 0xA8 || z == 0xA9 || z == 0xAF)) || (x == 0xE2 && y == 0x81 && z
            == 0x9F) || (x == 0xE3 && y == 0x80 && z == 0x80) {
            return 3;
        }
    }
    0
}

/// Computes `ws_width_before(line[start..end], end - start)`: the
/// whitespace character that ends at `end` without starting before `start`.
fn ws_width_ending(line: &Vec<u8>, start: usize, end: usize) -> (w: usize)
    requires
        start <= end <= line@.len(),
    ensures
        w == ws_width_before(line@.subrange(start as int, end as int), end - start),
{
    let ghost s = line@.subrange(start as int, end as int);
    let len = end - start;
    if len < 1 {
        return 0;
    }
    let x = line[end - 1];
    assert(s[len - 1] == x);
    if x == 32 || (9 <= x && x <= 13) {
        return 1;
    }
    if len >= 2 {
        let y = line[end - 2];
        assert(s[len - 2] == y);
        if y == 0xC2 && (x == 0x85 || x == 0xA0) {
            return 2;
        }
    }
    if len >= 3 {
        let a = line[end - 3];
        let b = line[end - 2];
        assert(s[len - 3] == a && s[len - 2] == b);
        if (a == 0xE1 && b == 0x9A && x == 0x80) || (a == 0xE2 && b == 0x80 && ((0x80 <= x && x
            <= 0x8A) || x == 0xA8 || x == 0xA9 || x == 0xAF)) || (a == 0xE2 && b == 0x81 && x
            == 0x9F) || (a == 0xE3 && b == 0x80 && x == 0x80) {
            return 3;
        }
    }
    0
}

/// The number written by a run of decimal digits.
pub open spec fn digits_value(s: Seq<u8>) -> nat
    decreases s.len(),
{
    if s.len() == 0 {
        0
    } else {
        digits_value(s.drop_last()) * 10 + (s.last() - 48) as nat
    }
}

/// Whether every byte is a digit.
pub open spec fn all_digits(s: Seq<u8>) -> bool {
    forall|i: int| 0 <= i < s.len() ==> is_digit(#[trigger] s[i])
}

/// The digits of an unsigned number: the token without a leading `+`.
pub open spec fn unsigned_body(tok: Seq<u8>) -> Seq<u8> {
    if tok.len() > 0 && tok[0] == 43 {
        tok.drop_first()
    } else {
        tok
    }
}

/// The unsigned number a token denotes, as std's integer parsing reads it:
/// an optional `+`, then one or more digits, with a value at most `max`.
pub open spec fn parse_unsigned(tok: Seq<u8>, max: nat) -> Option<nat> {
    let body = unsigned_body(tok);
    if body.len() > 0 && all_digits(body) && digits_value(body) <= max {
        Some(digits_value(body))
    } else {
        None
    }
}

/// More digits never make a number smaller.
pub proof fn lemma_digits_value_grows(s: Seq<u8>, k: int)
    requires
        0 <= k <= s.len(),
        all_digits(s),
    ensures
        digits_value(s.take(k)) <= digits_value(s),
    decreases s.len(),
{
    if k < s.len() {
        assert(s.drop_last().take(k) =~= s.take(k));
        lemma_digits_value_grows(s.drop_last(), k);
    } else {
        assert(s.take(k) =~= s);
    }
}

/// Reads an unsigned number of at most `max` from a token (see
/// `parse_unsigned`).
pub fn parse_unsigned_token(tok: &Vec<u8>, max: u64) -> (res: Option<u64>)
    ensures
        res matches Some(v) ==> parse_unsigned(tok@, max as nat) == Some(v as nat),
        res is None ==> parse_unsigned(tok@, max as nat) is None,
{
    let ghost body = unsigned_body(tok@);
    let start: usize = if tok.len() > 0 && tok[0] == 43 {
        1
    } else {
        0
    };
    assert(body =~= tok@.subrange(start as int, tok@.len() as int));
    if start >= tok.len() {
        return None;
    }
    let mut v: u64 = 0;
    let mut i: usize = start;
    while i < tok.len()
        invariant
            start <= i <= tok@.len(),
            start < tok@.len(),
            body == tok@.subrange(start as int, tok@.len() as int),
            body == unsigned_body(tok@),
            all_digits(body.take(i - start)),
            v as nat == digits_value(body.take(i - start)),
            v <= max,
        decreases tok@.len() - i,
    {
        let b = tok[i];
        let ghost k = i - start;
        proof {
            assert(body.take(k + 1).drop_last() =~= body.take(k));
            assert(body[k] == b);
        }
        if !(48 <= b && b <= 57) {
            assert(!all_digits(body));
            return None;
        }
        let d: u64 = (b - 48) as u64;
        if d > max || v > (max - d) / 10 {
            proof {
                assert(v * 10 + d > max) by (nonlinear_arith)
                    requires
                        d > max || v > (max - d) / 10,
                        d <= 9,
                        v >= 0,
                ;
                if all_digits(body) {
                    lemma_digits_value_grows(body, k + 1);
                }
            }
            return None;
        }
        proof {
            assert(v * 10 + d <= max) by (nonlinear_arith)
                requires
                    v <= (max - d) / 10,
                    d <= max,
            ;
        }
        v = v * 10 + d;
        i = i + 1;
        proof {
            assert forall|j: int| 0 <= j < body.take(k + 1).len() implies is_digit(
                #[trigger] body.take(k + 1)[j],
            ) by {
                if j < k {
                    assert(body.take(k + 1)[j] == body.take(k)[j]);
                }
            }
        }
    }
    assert(body.take(tok@.len() - start) =~= body);
    Some(v)
}

/// Splits a line into its tokens (see `tokens`).
pub fn split_tokens(line: &Vec<u8>) -> (r: Vec<Vec<u8>>)
    ensures
        r@.map_values(|t: Vec<u8>| t@) == tokens(line@),
{
    let mut done: Vec<Vec<u8>> = Vec::new();
    let mut cur: Vec<u8> = Vec::new();
    let mut i: usize = 0;
    assert(done@.map_values(|t: Vec<u8>| t@) =~= Seq::<Seq<u8>>::empty());
    while i < line.len()
        invariant
            0 <= i <= line@.len(),
            tokens(line@) == split_from(line@, i as int, done@.map_values(|t: Vec<u8>| t@), cur@),
        decreases line@.len() - i,
    {
        let w = ws_width_at(line, i);
        let ghost old_done = done@;
        if w > 0 {
            if cur.len() > 0 {
                let finished = cur;
                let ghost fv = finished@;
                done.push(finished);
                assert(done@.map_values(|t: Vec<u8>| t@) =~= old_done.map_values(|t: Vec<u8>| t@).push(fv));
            }
            cur = Vec::new();
            assert(cur@ =~= Seq::<u8>::empty());
            i = i + w;
        } else {
            cur.push(line[i]);
            i = i + 1;
        }
    }
    if cur.len() > 0 {
        let ghost old_done = done@;
        let ghost cv = cur@;
        done.push(cur);
        assert(done@.map_values(|t: Vec<u8>| t@) =~= old_done.map_values(|t: Vec<u8>| t@).push(cv));
    }
    done
}

/// Errors in a pump command line.
#[derive(Clone, Copy, Debug, PartialEq, Eq, Structural)]
pub enum CommandError {
    /// The line does not hold exactly four tokens.
    WrongTokenCount { count: usize },
    /// The pump id is not a number.
    InvalidPumpId,
    /// The pump id is not below the number of pumps.
    PumpOutOfRange { pump_id: usize, num_pumps: usize },
    /// The account id is not a number.
    InvalidAccountId,
    /// The card id is not a number.
    InvalidCardId,
    /// The amount is not a number.
    InvalidAmount,
    /// The pump already has a charge in flight.
    PumpBusy { pump_id: usize, request_id: u64 },
}

/// A pump command with its numbers read; the amount is still text.
#[derive(Debug)]
pub struct CommandTokens {
    pub pump_id: usize,
    pub account_id: u64,
    pub card_id: u64,
    pub amount_text: Vec<u8>,
}

/// The outcome of reading `<pump_id> <account_id> <card_id> <amount>`:
/// the fields in that order, each checked as it is read.
pub open spec fn command_result(line: Seq<u8>, num_pumps: usize) -> Result<
    (usize, u64, u64, Seq<u8>),
    CommandError,
> {
    let t = tokens(line);
    if t.len() != 4 {
        Err(CommandError::WrongTokenCount { count: t.len() as usize })
    } else {
        match parse_unsigned(t[0], usize::MAX as nat) {
            None => Err(CommandError::InvalidPumpId),
            Some(p) => if p >= num_pumps {
                Err(CommandError::PumpOutOfRange { pump_id: p as usize, num_pumps })
            } else {
                match parse_unsigned(t[1], u64::MAX as nat) {
                    None => Err(CommandError::InvalidAccountId),
                    Some(a) => match parse_unsigned(t[2], u64::MAX as nat) {
                        None => Err(CommandError::InvalidCardId),
                        Some(c) => Ok((p as usize, a as u64, c as u64, t[3])),
                    },
                }
            },
        }
    }
}

/// Reads a pump command line (see `command_result`); the amount is left as
/// text.
pub fn parse_command(line: &Vec<u8>, num_pumps: usize) -> (res: Result<CommandTokens, CommandError>)
    ensures
        match res {
            Ok(c) => command_result(line@, num_pumps) == Ok::<(usize, u64, u64, Seq<u8>), CommandError>(
                (c.pump_id, c.account_id, c.card_id, c.amount_text@),
            ),
            Err(e) => command_result(line@, num_pumps) == Err::<(usize, u64, u64, Seq<u8>), CommandError>(e),
        },
{
    let mut parts = split_tokens(line);
    let ghost t = tokens(line@);
    if parts.len() != 4 {
        return Err(CommandError::WrongTokenCount { count: parts.len() });
    }
    assert(parts@[0]@ == t[0] && parts@[1]@ == t[1] && parts@[2]@ == t[2] && parts@[3]@ == t[3]);
    let pump_id = match parse_unsigned_token(&parts[0], usize::MAX as u64) {
        None => {
            return Err(CommandError::InvalidPumpId);
        },
        Some(p) => p as usize,
    };
    if pump_id >= num_pumps {
        return Err(CommandError::PumpOutOfRange { pump_id, num_pumps });
    }
    let account_id = match parse_unsigned_token(&parts[1], u64::MAX) {
        None => {
            return Err(CommandError::InvalidAccountId);
        },
        Some(a) => a,
    };
    let card_id = match parse_unsigned_token(&parts[2], u64::MAX) {
        None => {
            return Err(CommandError::InvalidCardId);
        },
        Some(c) => c,
    };
    let amount_text = parts.pop().unwrap();
    Ok(CommandTokens { pump_id, account_id, card_id, amount_text })
}

/// What a console line asks for.
#[derive(Clone, Copy, Debug, PartialEq, Eq, Structural)]
pub enum StationInput {
    /// Nothing: the line is blank.
    Empty,
    /// `quit` or `exit`: stop the station.
    Quit,
    /// `help`: print the usage.
    Help,
    /// `disconnect`: switch the node offline.
    Disconnect,
    /// `connect`: switch the node back online.
    Connect,
    /// Anything else: a pump command.
    Command,
}

/// The line without leading whitespace.
pub open spec fn trim_start(s: Seq<u8>) -> Seq<u8>
    decreases s.len(),
{
    if ws_width(s, 0) > 0 {
        trim_start(s.subrange(ws_width(s, 0), s.len() as int))
    } else {
        s
    }
}

/// The line without trailing whitespace.
pub open spec fn trim_end(s: Seq<u8>) -> Seq<u8>
    decreases s.len(),
{
    if ws_width_before(s, s.len() as int) > 0 {
        trim_end(s.subrange(0, s.len() - ws_width_before(s, s.len() as int)))
    } else {
        s
    }
}

/// The line without surrounding whitespace.
pub open spec fn trim(s: Seq<u8>) -> Seq<u8> {
    trim_end(trim_start(s))
}

/// An ASCII byte in lower case.
pub open spec fn lower(b: u8) -> u8 {
    if 65 <= b && b <= 90 {
        (b + 32) as u8
    } else {
        b
    }
}

/// Equal up to ASCII case.
pub open spec fn eq_ignore_case(s: Seq<u8>, word: Seq<u8>) -> bool {
    s.len() == word.len() && forall|i: int| 0 <= i < s.len() ==> lower(#[trigger] s[i]) == lower(
        word[i],
    )
}

/// What a console line asks for, after trimming, words compared without
/// regard to ASCII case.
pub open spec fn input_kind(line: Seq<u8>) -> StationInput {
    let t = trim(line);
    if t.len() == 0 {
        StationInput::Empty
    } else if eq_ignore_case(t, seq![113u8, 117, 105, 116]) || eq_ignore_case(
        t,
        seq![101u8, 120, 105, 116],
    ) {
        StationInput::Quit
    } else if eq_ignore_case(t, seq![104u8, 101, 108, 112]) {
        StationInput::Help
    } else if eq_ignore_case(t, seq![100u8, 105, 115, 99, 111, 110, 110, 101, 99, 116]) {
        StationInput::Disconnect
    } else if eq_ignore_case(t, seq![99u8, 111, 110, 110, 101, 99, 116]) {
        StationInput::Connect
    } else {
        StationInput::Command
    }
}

/// The positions where the trimmed line starts and ends.
fn trim_bounds(line: &Vec<u8>) -> (res: (usize, usize))
    ensures
        res.0 <= res.1 <= line@.len(),
        line@.subrange(res.0 as int, res.1 as int) == trim(line@),
{
    let n = line.len();
    let mut a: usize = 0;
    assert(line@.subrange(0, n as int) =~= line@);
    loop
        invariant
            0 <= a <= n,
            n == line@.len(),
            trim_start(line@) == trim_start(line@.subrange(a as int, n as int)),
        ensures
            0 <= a <= n,
            trim_start(line@) == line@.subrange(a as int, n as int),
        decreases n - a,
    {
        let w = ws_width_at(line, a);
        let ghost t = line@.subrange(a as int, n as int);
        assert(ws_width(t, 0) == w) by {
            if a < n {
                assert(t[0] == line@[a as int]);
                if a + 1 < n {
                    assert(t[1] == line@[a + 1]);
                }
                if a + 2 < n {
                    assert(t[2] == line@[a + 2]);
                }
            }
        }
        if w == 0 {
            break;
        }
        assert(t.subrange(w as int, t.len() as int) =~= line@.subrange(a + w, n as int));
        a = a + w;
    }
    let mut b: usize = n;
    loop
        invariant
            a <= b <= n,
            n == line@.len(),
            trim(line@) == trim_end(line@.subrange(a as int, b as int)),
        ensures
            a <= b <= n,
            trim(line@) == line@.subrange(a as int, b as int),
        decreases b - a,
    {
        let w = ws_width_ending(line, a, b);
        if w == 0 {
            break;
        }
        assert(line@.subrange(a as int, b as int).subrange(0, b - a - w) =~= line@.subrange(
            a as int,
            b - w,
        ));
        b = b - w;
    }
    (a, b)
}

/// Whether `line[start..end]` equals `word` up to ASCII case.
fn span_eq_ignore_case(line: &Vec<u8>, start: usize, end: usize, word: &Vec<u8>) -> (b: bool)
    requires
        start <= end <= line@.len(),
    ensures
        b == eq_ignore_case(line@.subrange(start as int, end as int), word@),
{
    let ghost s = line@.subrange(start as int, end as int);
    if end - start != word.len() {
        return false;
    }
    let mut i: usize = 0;
    while i < word.len()
        invariant
            0 <= i <= word@.len(),
            start <= end <= line@.len(),
            end - start == word@.len(),
            s == line@.subrange(start as int, end as int),
            forall|j: int| 0 <= j < i ==> lower(#[trigger] s[j]) == lower(word@[j]),
        decreases word@.len() - i,
    {
        let x = line[start + i];
        let y = word[i];
        let lx: u8 = if 65 <= x && x <= 90 {
            x + 32
        } else {
            x
        };
        let ly: u8 = if 65 <= y && y <= 90 {
            y + 32
        } else {
            y
        };
        assert(s[i as int] == x);
        if lx != ly {
            return false;
        }
        i = i + 1;
    }
    true
}

/// Classifies a console line (see `input_kind`).
pub fn classify_line(line: &Vec<u8>) -> (k: StationInput)
    ensures
        k == input_kind(line@),
{
    let (a, b) = trim_bounds(line);
    if a == b {
        return StationInput::Empty;
    }
    let quit: Vec<u8> = vec![113u8, 117, 105, 116];
    let exit: Vec<u8> = vec![101u8, 120, 105, 116];
    let help: Vec<u8> = vec![104u8, 101, 108, 112];
    let disconnect: Vec<u8> = vec![100u8, 105, 115, 99, 111, 110, 110, 101, 99, 116];
    let connect: Vec<u8> = vec![99u8, 111, 110, 110, 101, 99, 116];
    assert(quit@ =~= seq![113u8, 117, 105, 116]);
    assert(exit@ =~= seq![101u8, 120, 105, 116]);
    assert(help@ =~= seq![104u8, 101, 108, 112]);
    assert(disconnect@ =~= seq![100u8, 105, 115, 99, 111, 110, 110, 101, 99, 116]);
    assert(connect@ =~= seq![99u8, 111, 110, 110, 101, 99, 116]);
    if span_eq_ignore_case(line, a, b, &quit) || span_eq_ignore_case(line, a, b, &exit) {
        StationInput::Quit
    } else if span_eq_ignore_case(line, a, b, &help) {
        StationInput::Help
    } else if span_eq_ignore_case(line, a, b, &disconnect) {
        StationInput::Disconnect
    } else if span_eq_ignore_case(line, a, b, &connect) {
        StationInput::Connect
    } else {
        StationInput::Command
    }
}

/// A charge a pump asked for and that has no result yet.
#[derive(Clone, Copy, Debug, PartialEq, Eq, Structural)]
pub struct PumpRequest {
    pub pump_id: usize,
    pub account_id: u64,
    pub card_id: u64,
    /// The amount, in hundredths of the currency unit.
    pub amount: i64,
    pub request_id: u64,
}

/// Whether a pump's slot holds the charge with this id.
pub open spec fn holds(slot: Option<PumpRequest>, request_id: u64) -> bool {
    match slot {
        Some(r) => r.request_id == request_id,
        None => false,
    }
}

/// Registering a charge at a pump, given the pumps' slots and the next id:
/// the outcome, the new slots and the new next id. A pump out of range or
/// busy refuses the charge and nothing changes; an idle pump takes it under
/// the next id.
pub open spec fn register_outcome(
    slots: Seq<Option<PumpRequest>>,
    next: u64,
    pump_id: usize,
    account_id: u64,
    card_id: u64,
    amount: i64,
) -> (Result<u64, CommandError>, Seq<Option<PumpRequest>>, u64) {
    if pump_id >= slots.len() {
        (Err(CommandError::PumpOutOfRange { pump_id, num_pumps: slots.len() as usize }), slots, next)
    } else {
        match slots[pump_id as int] {
            Some(busy) => (
                Err(CommandError::PumpBusy { pump_id, request_id: busy.request_id }),
                slots,
                next,
            ),
            None => (
                Ok(next),
                slots.update(
                    pump_id as int,
                    Some(PumpRequest { pump_id, account_id, card_id, amount, request_id: next }),
                ),
                (next + 1) as u64,
            ),
        }
    }
}

/// One charge in flight per pump: once a pump took a charge, every further
/// charge at that pump is refused, naming the charge in flight, until its
/// result arrives and frees the pump, which then takes the next charge
/// under a new id.
pub proof fn lemma_one_charge_per_pump(
    slots: Seq<Option<PumpRequest>>,
    next: u64,
    pump_id: usize,
    account_id: u64,
    card_id: u64,
    amount: i64,
    account_id2: u64,
    card_id2: u64,
    amount2: i64,
)
    requires
        next < u64::MAX,
        register_outcome(slots, next, pump_id, account_id, card_id, amount).0 is Ok,
    ensures
        ({
            let (res, slots2, next2) = register_outcome(
                slots,
                next,
                pump_id,
                account_id,
                card_id,
                amount,
            );
            &&& register_outcome(slots2, next2, pump_id, account_id2, card_id2, amount2).0
                == Err::<u64, CommandError>(
                CommandError::PumpBusy { pump_id, request_id: next },
            )
            &&& register_outcome(
                slots2.update(pump_id as int, None),
                next2,
                pump_id,
                account_id2,
                card_id2,
                amount2,
            ).0 == Ok::<u64, CommandError>((next + 1) as u64)
        }),
{
}

/// The pumps of a station, each idle or waiting for the result of one
/// charge, and the id the next charge receives.
#[derive(Debug)]
pub struct PumpTable {
    /// The charge in flight at each pump, if any.
    pub slots: Vec<Option<PumpRequest>>,
    pub next_request_id: u64,
}

impl PumpTable {
    /// Every charge in flight sits at its own pump, has an id below the next
    /// one, and no two charges share an id.
    pub open spec fn wf(&self) -> bool {
        &&& forall|i: int| 0 <= i < self.slots@.len() && #[trigger] self.slots@[i] is Some ==> {
            let r = self.slots@[i]->0;
            &&& r.pump_id == i
            &&& 1 <= r.request_id < self.next_request_id
        }
        &&& forall|i: int, j: int|
            0 <= i < self.slots@.len() && 0 <= j < self.slots@.len() && i != j
                && #[trigger] self.slots@[i] is Some && #[trigger] self.slots@[j] is Some
                ==> self.slots@[i]->0.request_id != self.slots@[j]->0.request_id
        &&& self.next_request_id >= 1
    }

    /// Whether some pump waits for the charge with this id.
    pub open spec fn has_request(&self, request_id: u64) -> bool {
        exists|i: int| 0 <= i < self.slots@.len() && holds(#[trigger] self.slots@[i], request_id)
    }

    /// `num_pumps` idle pumps; the first charge gets id 1.
    pub fn new(num_pumps: usize) -> (t: PumpTable)
        ensures
            t.wf(),
            t.slots@ == Seq::new(num_pumps as nat, |i: int| None::<PumpRequest>),
            t.next_request_id == 1,
    {
        let mut slots: Vec<Option<PumpRequest>> = Vec::new();
        let mut i: usize = 0;
        while i < num_pumps
            invariant
                0 <= i <= num_pumps,
                slots@ == Seq::new(i as nat, |k: int| None::<PumpRequest>),
            decreases num_pumps - i,
        {
            slots.push(None);
            i = i + 1;
            assert(slots@ =~= Seq::new(i as nat, |k: int| None::<PumpRequest>));
        }
        PumpTable { slots, next_request_id: 1 }
    }

    /// The number of pumps.
    pub fn num_pumps(&self) -> (n: usize)
        ensures
            n == self.slots@.len(),
    {
        self.slots.len()
    }

    /// Whether `register` can hand out one more id.
    pub open spec fn has_room(&self) -> bool {
        self.next_request_id < u64::MAX
    }

    /// Checks `has_room`.
    pub fn can_register(&self) -> (b: bool)
        ensures
            b == self.has_room(),
    {
        self.next_request_id < u64::MAX
    }

    /// Registers a charge at a pump: a pump out of range or busy refuses it;
    /// an idle pump takes it under the next id, which is returned.
    pub fn register(&mut self, pump_id: usize, account_id: u64, card_id: u64, amount: i64) -> (res:
        Result<u64, CommandError>)
        requires
            old(self).wf(),
            old(self).has_room(),
        ensures
            final(self).wf(),
            (res, final(self).slots@, final(self).next_request_id) == register_outcome(
                old(self).slots@,
                old(self).next_request_id,
                pump_id,
                account_id,
                card_id,
                amount,
            ),
    {
        if pump_id >= self.slots.len() {
            return Err(CommandError::PumpOutOfRange { pump_id, num_pumps: self.slots.len() });
        }
        match self.slots[pump_id] {
            Some(busy) => Err(CommandError::PumpBusy { pump_id, request_id: busy.request_id }),
            None => {
                let request_id = self.next_request_id;
                self.next_request_id = request_id + 1;
                self.slots.set(
                    pump_id,
                    Some(PumpRequest { pump_id, account_id, card_id, amount, request_id }),
                );
                Ok(request_id)
            },
        }
    }

    /// The result of a charge arrived: its pump becomes idle and the
    /// charge is returned; an unknown id changes nothing.
    pub fn complete(&mut self, request_id: u64) -> (res: Option<PumpRequest>)
        requires
            old(self).wf(),
        ensures
            final(self).wf(),
            final(self).next_request_id == old(self).next_request_id,
            res is None <==> !old(self).has_request(request_id),
            res is None ==> final(self).slots@ == old(self).slots@,
            res matches Some(r) ==> r.request_id == request_id && r.pump_id < old(self).slots@.len()
                && old(self).slots@[r.pump_id as int] == Some(r) && final(self).slots@ == old(
                self,
            ).slots@.update(r.pump_id as int, None),
    {
        let mut i: usize = 0;
        while i < self.slots.len()
            invariant
                0 <= i <= self.slots@.len(),
                *self == *old(self),
                self.wf(),
                forall|j: int| 0 <= j < i ==> !holds(#[trigger] self.slots@[j], request_id),
            decreases self.slots@.len() - i,
        {
            match self.slots[i] {
                Some(r) => {
                    if r.request_id == request_id {
                        self.slots.set(i, None);
                        return Some(r);
                    }
                },
                None => {},
            }
            i = i + 1;
        }
        None
    }

    /// Sending a charge to the node failed: its pump becomes idle again.
    pub fn cancel(&mut self, pump_id: usize)
        requires
            old(self).wf(),
        ensures
            final(self).wf(),
            final(self).next_request_id == old(self).next_request_id,
            pump_id < old(self).slots@.len() ==> final(self).slots@ == old(self).slots@.update(
                pump_id as int,
                None,
            ),
            pump_id >= old(self).slots@.len() ==> final(self).slots@ == old(self).slots@,
    {
        if pump_id < self.slots.len() {
            self.slots.set(pump_id, None);
        }
    }
}


/// What the station does with a console line.
#[derive(Debug)]
pub enum StationAction {
    /// Nothing: the line is blank.
    Skip,
    /// Stop the station: on `quit` or `exit`, or at the end of the input.
    Stop { end_of_input: bool },
    /// Print the usage.
    ShowHelp,
    /// Send this message to the node.
    ToNode(StationToNodeMsg),
    /// A pump command; its amount is still text.
    Charge(CommandTokens),
    /// A pump command that cannot be read.
    Reject(CommandError),
}

/// What the station does with a line, or with the end of the input (`None`).
pub fn station_action(line: Option<Vec<u8>>, num_pumps: usize) -> (a: StationAction)
    ensures
        match line {
            None => a == (StationAction::Stop { end_of_input: true }),
            Some(l) => match input_kind(l@) {
                StationInput::Empty => a is Skip,
                StationInput::Quit => a == (StationAction::Stop { end_of_input: false }),
                StationInput::Help => a is ShowHelp,
                StationInput::Disconnect => a == StationAction::ToNode(
                    StationToNodeMsg::DisconnectNode,
                ),
                StationInput::Connect => a == StationAction::ToNode(StationToNodeMsg::ConnectNode),
                StationInput::Command => match command_result(l@, num_pumps) {
                    Ok((pump_id, account_id, card_id, amount_text)) => {
                        &&& a is Charge
                        &&& a->Charge_0.pump_id == pump_id
                        &&& a->Charge_0.account_id == account_id
                        &&& a->Charge_0.card_id == card_id
                        &&& a->Charge_0.amount_text@ == amount_text
                    },
                    Err(e) => a == StationAction::Reject(e),
                },
            },
        },
{
    match line {
        None => StationAction::Stop { end_of_input: true },
        Some(l) => match classify_line(&l) {
            StationInput::Empty => StationAction::Skip,
            StationInput::Quit => StationAction::Stop { end_of_input: false },
            StationInput::Help => StationAction::ShowHelp,
            StationInput::Disconnect => StationAction::ToNode(StationToNodeMsg::DisconnectNode),
            StationInput::Connect => StationAction::ToNode(StationToNodeMsg::ConnectNode),
            StationInput::Command => match parse_command(&l, num_pumps) {
                Ok(c) => StationAction::Charge(c),
                Err(e) => StationAction::Reject(e),
            },
        },
    }
}

/// Registers the charge of a pump command, `amount` in hundredths, and
/// builds the request for the node; the request id travels as its low 32
/// bits. A pump that is busy refuses the charge and nothing changes.
pub fn charge_request(table: &mut PumpTable, cmd: &CommandTokens, amount: i64) -> (res: Result<
    StationToNodeMsg,
    CommandError,
>)
    requires
        old(table).wf(),
        old(table).has_room(),
    ensures
        final(table).wf(),
        ({
            let (r, slots, next) = register_outcome(
                old(table).slots@,
                old(table).next_request_id,
                cmd.pump_id,
                cmd.account_id,
                cmd.card_id,
                amount,
            );
            &&& final(table).slots@ == slots
            &&& final(table).next_request_id == next
            &&& match r {
                Ok(id) => res == Ok::<StationToNodeMsg, CommandError>(
                    StationToNodeMsg::ChargeRequest {
                        account_id: cmd.account_id,
                        card_id: cmd.card_id,
                        amount,
                        request_id: id as u32,
                    },
                ),
                Err(e) => res == Err::<StationToNodeMsg, CommandError>(e),
            }
        }),
{
    match table.register(cmd.pump_id, cmd.account_id, cmd.card_id, amount) {
        Ok(id) => Ok(
            StationToNodeMsg::ChargeRequest {
                account_id: cmd.account_id,
                card_id: cmd.card_id,
                amount,
                request_id: id as u32,
            },
        ),
        Err(e) => Err(e),
    }
}

} // verus!
