//! What one frame shows: a row for each account, and the texts of a row.

use crate::acc::{all_wf, code_at, remaining, Account, AccountView, CODE_MODULUS};
use crate::parse::DataSrc;
use crate::ui::App;
use vstd::prelude::*;
use vstd::utf8::encode_utf8;

verus! {

/// What the display shows of one account at one moment.
#[derive(Debug, Clone)]
pub struct Row {
    /// The name of the account.
    pub name: String,
    /// The qualifier as it is shown after the name; empty where there is none.
    pub qualifier: String,
    /// The code of the current time step.
    pub code: u32,
    /// The code of the next time step, where the peek is on.
    pub peek: Option<u32>,
    /// Seconds until the code changes.
    pub remaining: u64,
    /// Seconds since the code changed.
    pub elapsed: u64,
    /// Seconds between two code changes.
    pub interval: u64,
}

/// A row as plain values.
pub struct RowView {
    pub name: Seq<char>,
    pub qualifier: Seq<char>,
    pub code: int,
    pub peek: Option<int>,
    pub remaining: int,
    pub elapsed: int,
    pub interval: int,
}

impl View for Row {
    type V = RowView;

    open spec fn view(&self) -> RowView {
        RowView {
            name: self.name@,
            qualifier: self.qualifier@,
            code: self.code as int,
            peek: match self.peek {
                Some(code) => Some(code as int),
                None => None,
            },
            remaining: self.remaining as int,
            elapsed: self.elapsed as int,
            interval: self.interval as int,
        }
    }
}

impl DeepView for Row {
    type V = RowView;

    open spec fn deep_view(&self) -> RowView {
        self@
    }
}

/// The character of a decimal digit.
pub open spec fn digit_char(d: int) -> char {
    if d == 0 {
        '0'
    } else if d == 1 {
        '1'
    } else if d == 2 {
        '2'
    } else if d == 3 {
        '3'
    } else if d == 4 {
        '4'
    } else if d == 5 {
        '5'
    } else if d == 6 {
        '6'
    } else if d == 7 {
        '7'
    } else if d == 8 {
        '8'
    } else {
        '9'
    }
}

/// A number in decimal digits, without leading zeros.
pub open spec fn decimal(n: nat) -> Seq<char>
    decreases n,
{
    if n < 10 {
        seq![digit_char(n as int)]
    } else {
        decimal(n / 10).push(digit_char(n as int % 10))
    }
}

/// A number below a thousand in three digits, with leading zeros.
pub open spec fn three_digits(n: int) -> Seq<char> {
    seq![digit_char(n / 100 % 10), digit_char(n / 10 % 10), digit_char(n % 10)]
}

/// A code as it is shown: six digits, with leading zeros, in two groups of
/// three with a space between them.
pub open spec fn code_digits(code: int) -> Seq<char> {
    three_digits(code / 1000) + seq![' '] + three_digits(code % 1000)
}

/// The code of the next time step as it is shown: with a space on each side.
pub open spec fn peek_digits(code: int) -> Seq<char> {
    seq![' '] + code_digits(code) + seq![' ']
}

/// The countdown as it is shown: the seconds in at least two digits, then `s`.
pub open spec fn countdown_digits(secs: nat) -> Seq<char> {
    if secs < 10 {
        seq!['0', digit_char(secs as int), 's']
    } else {
        decimal(secs).push('s')
    }
}

/// The qualifier as it is shown after the name: nothing where there is none.
pub open spec fn qualifier_text(acc_id: Option<Seq<char>>) -> Seq<char> {
    match acc_id {
        Some(id) => " <@"@ + id + ">"@,
        None => Seq::empty(),
    }
}

/// The descriptor of the source as it is shown: with a space on each side.
pub open spec fn origin_text(src: DataSrc<Seq<char>>) -> Seq<char> {
    " "@ + src.payload() + " "@
}

/// The whole label of a row: name, qualifier, a colon and the code.
pub open spec fn label_text(row: RowView) -> Seq<char> {
    row.name + row.qualifier + ": "@ + code_digits(row.code)
}

/// The length of a row's label in bytes.
pub open spec fn label_bytes(row: RowView) -> usize {
    encode_utf8(label_text(row)).len() as usize
}

/// `width` is the length of the longest label among the rows, and zero
/// where there is no row.
pub open spec fn is_widest(rows: Seq<Row>, width: usize) -> bool {
    &&& forall|i: int| 0 <= i < rows.len() ==> label_bytes((#[trigger] rows[i])@) <= width
    &&& if rows.len() == 0 {
        width == 0
    } else {
        exists|i: int| 0 <= i < rows.len() && label_bytes((#[trigger] rows[i])@) == width
    }
}

/// The row of an account at the second `now`, with or without the code of
/// the next time step.
pub open spec fn row_of(account: AccountView, peek: bool, now: u64) -> RowView {
    let period = account.period();
    RowView {
        name: account.name,
        qualifier: qualifier_text(account.acc_id),
        code: code_at(account.key, (now as int / period) as u64),
        peek: if peek {
            Some(code_at(account.key, (now as int / period + 1) as u64))
        } else {
            None
        },
        remaining: remaining(period, now as int),
        elapsed: now as int % period,
        interval: period,
    }
}

/// The peek can be shown at `now`: no account is in its last time step.
pub open spec fn peek_in_reach(accounts: Seq<Account>, now: u64) -> bool {
    forall|i: int| 0 <= i < accounts.len() ==> (#[trigger] accounts[i]).step_at(now) < u64::MAX
}

/// Before the last second that the clock can show, the peek is in reach for
/// every list of accounts that can be shown.
pub proof fn lemma_peek_in_reach(accounts: Seq<Account>, now: u64)
    requires
        all_wf(accounts),
        now < u64::MAX,
    ensures
        peek_in_reach(accounts, now),
{
    assert forall|i: int| 0 <= i < accounts.len() implies (#[trigger] accounts[i]).step_at(now)
        < u64::MAX by {
        let period: int = accounts[i].period();
        assert(accounts[i].wf());
        assert(now as int / period <= now as int) by (nonlinear_arith)
            requires
                period > 0,
                now >= 0,
        ;
    }
}

/// In each row the seconds gone and the seconds left make up the interval.
pub proof fn lemma_row_adds_up(account: AccountView, peek: bool, now: u64)
    requires
        account.period() > 0,
    ensures
        row_of(account, peek, now).elapsed + row_of(account, peek, now).remaining == row_of(
            account,
            peek,
            now,
        ).interval,
        0 <= row_of(account, peek, now).elapsed < row_of(account, peek, now).interval,
        0 <= row_of(account, peek, now).code < CODE_MODULUS,
        row_of(account, peek, now).peek is Some <==> peek,
{
}

/// The text of one decimal digit.
pub fn digit_str(d: u64) -> (s: &'static str)
    requires
        d < 10,
    ensures
        s@ == seq![digit_char(d as int)],
{
    proof {
        reveal_strlit("0");
        reveal_strlit("1");
        reveal_strlit("2");
        reveal_strlit("3");
        reveal_strlit("4");
        reveal_strlit("5");
        reveal_strlit("6");
        reveal_strlit("7");
        reveal_strlit("8");
        reveal_strlit("9");
    }
    let s: &'static str = if d == 0 {
        "0"
    } else if d == 1 {
        "1"
    } else if d == 2 {
        "2"
    } else if d == 3 {
        "3"
    } else if d == 4 {
        "4"
    } else if d == 5 {
        "5"
    } else if d == 6 {
        "6"
    } else if d == 7 {
        "7"
    } else if d == 8 {
        "8"
    } else {
        "9"
    };
    assert(s@ =~= seq![digit_char(d as int)]);
    s
}

/// Appends a number in decimal digits.
pub fn push_decimal(out: &mut String, n: u64)
    ensures
        final(out)@ == old(out)@ + decimal(n as nat),
    decreases n,
{
    if n >= 10 {
        push_decimal(out, n / 10);
    }
    out.append(digit_str(n % 10));
    assert(out@ =~= old(out)@ + decimal(n as nat));
}

/// Appends a number below a thousand in three digits.
pub fn push_three_digits(out: &mut String, n: u32)
    requires
        n < 1000,
    ensures
        final(out)@ == old(out)@ + three_digits(n as int),
{
    out.append(digit_str((n / 100 % 10) as u64));
    out.append(digit_str((n / 10 % 10) as u64));
    out.append(digit_str((n % 10) as u64));
    assert(out@ =~= old(out)@ + three_digits(n as int));
}

/// Appends a code as it is shown.
pub fn push_code(out: &mut String, code: u32)
    requires
        code < CODE_MODULUS,
    ensures
        final(out)@ == old(out)@ + code_digits(code as int),
{
    proof {
        reveal_strlit(" ");
    }
    push_three_digits(out, code / 1000);
    out.append(" ");
    push_three_digits(out, code % 1000);
    assert(out@ =~= old(out)@ + code_digits(code as int));
}

/// The text of a code: six digits in two groups of three.
pub fn code_text(code: u32) -> (text: String)
    requires
        code < CODE_MODULUS,
    ensures
        text@ == code_digits(code as int),
        text@.len() == 7,
{
    let mut text: String = String::new();
    push_code(&mut text, code);
    assert(text@ =~= code_digits(code as int));
    text
}

/// The text of the code of the next time step.
pub fn peek_text(code: u32) -> (text: String)
    requires
        code < CODE_MODULUS,
    ensures
        text@ == peek_digits(code as int),
        text@.len() == 9,
{
    proof {
        reveal_strlit(" ");
    }
    let mut text: String = String::from_str(" ");
    push_code(&mut text, code);
    text.append(" ");
    assert(text@ =~= peek_digits(code as int));
    text
}

/// The text of the countdown.
pub fn countdown_text(secs: u64) -> (text: String)
    ensures
        text@ == countdown_digits(secs as nat),
{
    proof {
        reveal_strlit("0");
        reveal_strlit("s");
    }
    let mut text: String = String::new();
    if secs < 10 {
        text.append("0");
    }
    push_decimal(&mut text, secs);
    text.append("s");
    assert(text@ =~= countdown_digits(secs as nat));
    text
}

/// The text of the source's descriptor.
pub fn origin_label(src: &DataSrc<String>) -> (text: String)
    ensures
        text@ == origin_text(src@),
{
    let mut text: String = String::from_str(" ");
    text.append(src.unwrap().as_str());
    text.append(" ");
    assert(text@ =~= origin_text(src@));
    text
}

impl Row {
    /// The whole label of the row, as one text.
    pub fn label(&self) -> (text: String)
        requires
            self.code < CODE_MODULUS,
        ensures
            text@ == label_text(self@),
    {
        let mut text: String = self.name.clone();
        text.append(self.qualifier.as_str());
        text.append(": ");
        push_code(&mut text, self.code);
        assert(text@ =~= label_text(self@));
        text
    }

    /// The length of the label in bytes.
    pub fn label_len(&self) -> (len: usize)
        requires
            self.code < CODE_MODULUS,
        ensures
            len == label_bytes(self@),
    {
        self.label().as_str().len()
    }
}

/// The length in bytes of the longest label among the rows.
pub fn widest_label(rows: &Vec<Row>) -> (width: usize)
    requires
        forall|i: int| 0 <= i < rows@.len() ==> (#[trigger] rows@[i]).code < CODE_MODULUS,
    ensures
        is_widest(rows@, width),
{
    let mut width: usize = 0;
    let mut i: usize = 0;
    while i < rows.len()
        invariant
            i <= rows@.len(),
            forall|j: int| 0 <= j < rows@.len() ==> (#[trigger] rows@[j]).code < CODE_MODULUS,
            is_widest(rows@.take(i as int), width),
        decreases rows@.len() - i,
    {
        let len: usize = rows[i].label_len();
        let ghost before: Seq<Row> = rows@.take(i as int);
        let ghost now: Seq<Row> = rows@.take(i + 1);
        proof {
            assert(now[i as int] == rows@[i as int]);
            assert forall|j: int| 0 <= j < i implies now[j] == before[j] by {}
        }
        if len > width {
            width = len;
            assert(label_bytes(now[i as int]@) == width);
        } else {
            proof {
                if i > 0 {
                    let k: int = choose|k: int|
                        0 <= k < before.len() && label_bytes((#[trigger] before[k])@) == width;
                    assert(label_bytes(now[k]@) == width);
                } else {
                    assert(label_bytes(now[0]@) == width);
                }
            }
        }
        i += 1;
    }
    assert(rows@.take(i as int) =~= rows@);
    width
}

impl Account {
    /// The qualifier as it is shown after the name.
    pub fn qualifier(&self) -> (text: String)
        ensures
            text@ == qualifier_text(self@.acc_id),
    {
        match &self.acc_id {
            Some(id) => {
                let mut text: String = String::from_str(" <@");
                text.append(id.as_str());
                text.append(">");
                assert(text@ =~= qualifier_text(self@.acc_id));
                text
            },
            None => String::new(),
        }
    }

    /// The row of the account at the second `now`.
    pub fn row(&self, peek: bool, now: u64) -> (row: Row)
        requires
            self.period() > 0,
            peek ==> self.step_at(now) < u64::MAX,
        ensures
            row@ == row_of(self@, peek, now),
            row.code < CODE_MODULUS,
    {
        let every: u64 = self.interval();
        Row {
            name: self.name.clone(),
            qualifier: self.qualifier(),
            code: self.current_code(now),
            peek: if peek {
                Some(self.peek_code(now))
            } else {
                None
            },
            remaining: self.seconds_remaining(now),
            elapsed: now % every,
            interval: every,
        }
    }
}

impl App {
    /// Whether a frame can be shown at `now`: with the peek on, no account may
    /// be in its last time step.
    pub fn in_reach(&self, now: u64) -> (ok: bool)
        ensures
            ok == (self.flags().peek_enabled ==> peek_in_reach(self.accounts(), now)),
    {
        if !self.peek_enabled() {
            return true;
        }
        let accounts: &Vec<Account> = self.accs();
        let mut i: usize = 0;
        while i < accounts.len()
            invariant
                i <= accounts@.len(),
                accounts@ == self.accounts(),
                self.flags().peek_enabled,
                all_wf(accounts@),
                forall|j: int| 0 <= j < i ==> (#[trigger] accounts@[j]).step_at(now) < u64::MAX,
            decreases accounts@.len() - i,
        {
            assert(accounts@[i as int].wf());
            if accounts[i].counter(now) == u64::MAX {
                assert(!(accounts@[i as int].step_at(now) < u64::MAX));
                return false;
            }
            i += 1;
        }
        true
    }

    /// The rows of one frame, or `None` where the frame cannot be shown at
    /// `now`.
    pub fn try_render(&self, now: u64) -> (rows: Option<Vec<Row>>)
        ensures
            rows is Some <==> (self.flags().peek_enabled ==> peek_in_reach(self.accounts(), now)),
            rows matches Some(shown) ==> {
                &&& shown@.len() == self.accounts().len()
                &&& forall|i: int|
                    0 <= i < shown@.len() ==> (#[trigger] shown@[i])@ == row_of(
                        self.accounts()[i]@,
                        self.flags().peek_enabled,
                        now,
                    )
                &&& forall|i: int|
                    0 <= i < shown@.len() ==> (#[trigger] shown@[i]).code < CODE_MODULUS
            },
    {
        if self.in_reach(now) {
            Some(self.render(now))
        } else {
            None
        }
    }

    /// The rows of one frame, one for each account in the display's order,
    /// all computed for the same second `now`.
    pub fn render(&self, now: u64) -> (rows: Vec<Row>)
        requires
            self.flags().peek_enabled ==> peek_in_reach(self.accounts(), now),
        ensures
            rows@.len() == self.accounts().len(),
            forall|i: int|
                0 <= i < rows@.len() ==> (#[trigger] rows@[i])@ == row_of(
                    self.accounts()[i]@,
                    self.flags().peek_enabled,
                    now,
                ),
            forall|i: int| 0 <= i < rows@.len() ==> (#[trigger] rows@[i]).code < CODE_MODULUS,
    {
        let accounts: &Vec<Account> = self.accs();
        let peek: bool = self.peek_enabled();
        let mut rows: Vec<Row> = Vec::with_capacity(accounts.len());
        let mut i: usize = 0;
        while i < accounts.len()
            invariant
                i <= accounts@.len(),
                accounts@ == self.accounts(),
                peek == self.flags().peek_enabled,
                peek ==> peek_in_reach(accounts@, now),
                all_wf(accounts@),
                rows@.len() == i,
                forall|j: int|
                    0 <= j < i ==> (#[trigger] rows@[j])@ == row_of(accounts@[j]@, peek, now),
                forall|j: int| 0 <= j < i ==> (#[trigger] rows@[j]).code < CODE_MODULUS,
            decreases accounts@.len() - i,
        {
            assert(accounts@[i as int].wf());
            let row: Row = accounts[i].row(peek, now);
            rows.push(row);
            i += 1;
        }
        rows
    }
}

} // verus!
