//! The replay side of the benchmark: historic transfers read from CSV lines,
//! the numbering of the accounts they name, the lines of the row mapping
//! file, and the figures a benchmark run reports.

use vstd::prelude::*;
use crate::config::{
    level_setting, opt_str_view, pairs_view, size_setting_mb, str_equal, LogLevel, LoggingConfig,
};
use crate::stm_log::{sample_period_setting, ExecutionContext};
use crate::text::{
    chars_of, contains_seq, contains_str, decimal, push_chars, push_decimal, spec_parse_int,
    spec_parse_unsigned, spec_to_lowercase, split, split_on, str_to_lowercase, trim, trim_ws,
    parse_usize, parse_u64, int_error_message, spec_int_error_message, IntErrorKind,
    joined_with_commas, join_with_commas, remove_all, remove_str, string_push,
};

verus! {

/// One transfer read from a historic CSV file.
#[derive(Debug, Clone)]
pub struct TransactionData {
    /// `account_` followed by the sender's index.
    pub from_address: String,
    /// `account_` followed by the receiver's index.
    pub to_address: String,
    /// The amount column, or 1 where it does not parse.
    pub amount: u64,
    /// `txn_<line>_<from>_to_<to>`.
    pub transaction_hash: String,
    /// The block the transfer was loaded into.
    pub block_number: u64,
    /// The line's position after the header, from 0.
    pub transaction_index: usize,
}

/// The mathematical value of a [`TransactionData`].
pub ghost struct TransactionDataView {
    pub from_address: Seq<char>,
    pub to_address: Seq<char>,
    pub amount: u64,
    pub transaction_hash: Seq<char>,
    pub block_number: u64,
    pub transaction_index: usize,
}

impl View for TransactionData {
    type V = TransactionDataView;

    open spec fn view(&self) -> TransactionDataView {
        TransactionDataView {
            from_address: self.from_address@,
            to_address: self.to_address@,
            amount: self.amount,
            transaction_hash: self.transaction_hash@,
            block_number: self.block_number,
            transaction_index: self.transaction_index,
        }
    }
}

/// One transfer of a CSV file as the replay reads it.
#[derive(Debug, Clone)]
pub struct CsvTransactionRecord {
    /// The line's position after the header, from 0.
    pub csv_index: usize,
    /// `account_` followed by the sender's index.
    pub sender_address: String,
    /// `account_` followed by the receiver's index.
    pub receiver_address: String,
    /// The amount column, or 1000000 where it does not parse.
    pub amount: u64,
    /// The fourth column, or 0 where it is missing or does not parse.
    pub timestamp: u64,
    /// `csv_txn_<csv_index>`.
    pub transaction_hash: String,
}

/// The mathematical value of a [`CsvTransactionRecord`].
pub ghost struct CsvRecordView {
    pub csv_index: usize,
    pub sender_address: Seq<char>,
    pub receiver_address: Seq<char>,
    pub amount: u64,
    pub timestamp: u64,
    pub transaction_hash: Seq<char>,
}

impl View for CsvTransactionRecord {
    type V = CsvRecordView;

    open spec fn view(&self) -> CsvRecordView {
        CsvRecordView {
            csv_index: self.csv_index,
            sender_address: self.sender_address@,
            receiver_address: self.receiver_address@,
            amount: self.amount,
            timestamp: self.timestamp,
            transaction_hash: self.transaction_hash@,
        }
    }
}

/// The data set a CSV path belongs to: `ETH` or `USDT` where the path names
/// one (`ETH` first), `UNKNOWN` otherwise.
pub open spec fn dataset_of_path(path: Seq<char>) -> Seq<char> {
    if contains_seq(path, "ETH"@) {
        "ETH"@
    } else if contains_seq(path, "USDT"@) {
        "USDT"@
    } else {
        "UNKNOWN"@
    }
}

/// The data set a CSV path belongs to.
pub fn dataset_of(path: &str) -> (r: String)
    ensures
        r@ == dataset_of_path(path@),
{
    if contains_str(path, "ETH") {
        "ETH".to_owned()
    } else if contains_str(path, "USDT") {
        "USDT".to_owned()
    } else {
        "UNKNOWN".to_owned()
    }
}

/// The address label of the account with index `n`.
pub open spec fn account_label_of(n: nat) -> Seq<char> {
    "account_"@ + decimal(n)
}

/// The address label of the account with index `n`: `account_<n>`.
pub fn account_label(n: usize) -> (r: String)
    ensures
        r@ == account_label_of(n as nat),
{
    let mut s = String::new();
    push_chars(&mut s, "account_");
    push_decimal(&mut s, n as u64);
    assert(s@ =~= account_label_of(n as nat));
    s
}

/// `n` in decimal, padded with zeros on the left to three digits.
pub open spec fn padded3(n: nat) -> Seq<char> {
    if n < 10 {
        seq!['0', '0'] + decimal(n)
    } else if n < 100 {
        seq!['0'] + decimal(n)
    } else {
        decimal(n)
    }
}

/// The name of a block's directory and id column.
pub open spec fn block_label_of(id: nat) -> Seq<char> {
    "block_"@ + padded3(id)
}

/// The name of a block: `block_` and its number padded to three digits.
pub fn block_label(id: u64) -> (r: String)
    ensures
        r@ == block_label_of(id as nat),
{
    let mut s = String::new();
    push_chars(&mut s, "block_");
    if id < 10 {
        string_push(&mut s, '0');
        string_push(&mut s, '0');
    } else if id < 100 {
        string_push(&mut s, '0');
    }
    push_decimal(&mut s, id);
    assert(s@ =~= block_label_of(id as nat));
    s
}

/// The position of the first `k` in `ks`, if any.
pub open spec fn first_position(ks: Seq<Seq<char>>, k: Seq<char>) -> Option<nat>
    decreases ks.len(),
{
    if ks.len() == 0 {
        None
    } else if ks[0] == k {
        Some(0)
    } else {
        match first_position(ks.drop_first(), k) {
            Some(p) => Some(p + 1),
            None => None,
        }
    }
}

/// `ks` with `k` added at the end unless it is already there.
pub open spec fn with_key(ks: Seq<Seq<char>>, k: Seq<char>) -> Seq<Seq<char>> {
    if first_position(ks, k) is Some {
        ks
    } else {
        ks.push(k)
    }
}

/// The number an account key gets: its position among the keys, from 1,
/// or 0 for a key that has none.
pub open spec fn id_in(ks: Seq<Seq<char>>, k: Seq<char>) -> nat {
    match first_position(ks, k) {
        Some(p) => p + 1,
        None => 0,
    }
}

/// The first position is the first index that holds the key.
proof fn lemma_first_position(ks: Seq<Seq<char>>, k: Seq<char>, i: int)
    requires
        0 <= i <= ks.len(),
        forall|j: int| 0 <= j < i ==> ks[j] != k,
    ensures
        i < ks.len() && ks[i] == k ==> first_position(ks, k) == Some(i as nat),
        i == ks.len() ==> first_position(ks, k) is None,
    decreases i,
{
    if i > 0 {
        assert forall|j: int| 0 <= j < i - 1 implies ks.drop_first()[j] != k by {
            assert(ks.drop_first()[j] == ks[j + 1]);
        }
        lemma_first_position(ks.drop_first(), k, i - 1);
    }
}

/// A first position is within the keys and holds the key; without one, no
/// index holds it.
proof fn lemma_first_position_holds(ks: Seq<Seq<char>>, k: Seq<char>)
    ensures
        first_position(ks, k) matches Some(p) ==> p < ks.len() && ks[p as int] == k,
        first_position(ks, k) is None ==> forall|j: int| 0 <= j < ks.len() ==> ks[j] != k,
    decreases ks.len(),
{
    if ks.len() > 0 && ks[0] != k {
        lemma_first_position_holds(ks.drop_first(), k);
        assert forall|j: int| 0 < j < ks.len() implies ks[j] == ks.drop_first()[j - 1] by {}
    }
}

/// Account numbers handed out in order of first appearance, from 1.
pub struct AccountIds {
    keys: Vec<String>,
}

impl View for AccountIds {
    type V = Seq<Seq<char>>;

    closed spec fn view(&self) -> Seq<Seq<char>> {
        self.keys@.map_values(|x: String| x@)
    }
}

impl AccountIds {
    /// Every number fits in a `u64`.
    #[verifier::type_invariant]
    spec fn fits(self) -> bool {
        self.keys@.len() < u64::MAX
    }

    /// No account numbered yet.
    pub fn new() -> (r: AccountIds)
        ensures
            r@ == Seq::<Seq<char>>::empty(),
    {
        let r = AccountIds { keys: Vec::new() };
        assert(r@ =~= Seq::<Seq<char>>::empty());
        r
    }

    /// How many accounts have a number.
    pub fn len(&self) -> (r: usize)
        ensures
            r == self@.len(),
    {
        self.keys.len()
    }

    /// The position of `key` among the numbered keys, if any.
    fn position(&self, key: &str) -> (r: Option<usize>)
        ensures
            r matches Some(p) ==> first_position(self@, key@) == Some(p as nat) && p < self@.len(),
            r is None ==> first_position(self@, key@) is None,
    {
        let mut i: usize = 0;
        while i < self.keys.len()
            invariant
                i <= self@.len(),
                self@.len() == self.keys@.len(),
                forall|j: int| 0 <= j < i ==> self@[j] != key@,
            decreases self.keys@.len() - i,
        {
            let k: &str = self.keys[i].as_str();
            assert(self@[i as int] == k@);
            if str_equal(k, key) {
                proof {
                    lemma_first_position(self@, key@, i as int);
                }
                return Some(i);
            }
            i = i + 1;
        }
        proof {
            lemma_first_position(self@, key@, i as int);
        }
        None
    }

    /// The number of `key`, or 0 where it has none.
    pub fn id_of(&self, key: &str) -> (r: u64)
        ensures
            r == id_in(self@, key@),
    {
        proof {
            use_type_invariant(self);
        }
        match self.position(key) {
            Some(p) => (p as u64) + 1,
            None => 0,
        }
    }

    /// The number of `key`, handing out the next one where it has none.
    pub fn assign(&mut self, key: String) -> (r: u64)
        requires
            old(self)@.len() + 1 < u64::MAX,
        ensures
            final(self)@ == with_key(old(self)@, key@),
            r == id_in(final(self)@, key@),
            r >= 1,
    {
        proof {
            use_type_invariant(&*self);
        }
        match self.position(key.as_str()) {
            Some(p) => (p as u64) + 1,
            None => {
                let ghost before = self@;
                proof {
                    lemma_first_position_holds(before, key@);
                }
                let n = self.keys.len();
                let mut keys: Vec<String> = Vec::new();
                std::mem::swap(&mut keys, &mut self.keys);
                keys.push(key);
                self.keys = keys;
                proof {
                    assert(self@ =~= before.push(key@));
                    assert forall|j: int| 0 <= j < n implies self@[j] != key@ by {
                        assert(self@[j] == before[j]);
                    }
                    lemma_first_position(self@, key@, n as int);
                }
                (n as u64) + 1
            },
        }
    }
}


/// The text of a transfer id read from a historic line: `txn_<line>_<from>_to_<to>`.
pub open spec fn history_hash_of(line_num: nat, from: nat, to: nat) -> Seq<char> {
    "txn_"@ + decimal(line_num) + "_"@ + decimal(from) + "_to_"@ + decimal(to)
}

/// What a historic line (after the header) gives: the sender, the receiver
/// and the transfer, where it has at least three comma-separated fields whose
/// first two parse as `usize` (untrimmed); nothing otherwise.
pub open spec fn history_row(line_num: nat, line: Seq<char>, block_id: u64) -> Option<
    (usize, usize, TransactionDataView),
> {
    let parts = split_on(line, ',');
    if parts.len() < 3 {
        None
    } else {
        match spec_parse_int(parts[0], usize::MAX as nat) {
            Err(_) => None,
            Ok(f) => match spec_parse_int(parts[1], usize::MAX as nat) {
                Err(_) => None,
                Ok(t) => Some(
                    (
                        f as usize,
                        t as usize,
                        TransactionDataView {
                            from_address: account_label_of(f),
                            to_address: account_label_of(t),
                            amount: match spec_parse_unsigned(parts[2], u64::MAX as nat) {
                                Some(v) => v as u64,
                                None => 1u64,
                            },
                            transaction_hash: history_hash_of(line_num, f, t),
                            block_number: block_id,
                            transaction_index: (line_num - 1) as usize,
                        },
                    ),
                ),
            },
        }
    }
}

/// Reads one historic line (not the header), as the loader of the benchmark
/// does.
pub fn parse_history_row(line_num: usize, line: &str, block_id: u64) -> (r: Option<
    (usize, usize, TransactionData),
>)
    requires
        line_num >= 1,
    ensures
        r matches Some((f, t, d)) ==> history_row(line_num as nat, line@, block_id) == Some(
            (f, t, d@),
        ),
        r is None ==> history_row(line_num as nat, line@, block_id) is None,
{
    let parts = split(line, ',');
    let ghost views = parts@.map_values(|x: String| x@);
    assert(views == split_on(line@, ','));
    if parts.len() < 3 {
        return None;
    }
    assert(views[0] == parts[0]@ && views[1] == parts[1]@ && views[2] == parts[2]@);
    let from = match parse_usize(parts[0].as_str()) {
        Ok(v) => v,
        Err(_) => {
            return None;
        },
    };
    let to = match parse_usize(parts[1].as_str()) {
        Ok(v) => v,
        Err(_) => {
            return None;
        },
    };
    let amount: u64 = match parse_u64(parts[2].as_str()) {
        Some(v) => v,
        None => 1,
    };
    let mut hash = String::new();
    push_chars(&mut hash, "txn_");
    push_decimal(&mut hash, line_num as u64);
    push_chars(&mut hash, "_");
    push_decimal(&mut hash, from as u64);
    push_chars(&mut hash, "_to_");
    push_decimal(&mut hash, to as u64);
    assert(hash@ =~= history_hash_of(line_num as nat, from as nat, to as nat));
    let d = TransactionData {
        from_address: account_label(from),
        to_address: account_label(to),
        amount,
        transaction_hash: hash,
        block_number: block_id,
        transaction_index: line_num - 1,
    };
    Some((from, to, d))
}

/// The key an account index is numbered under: its decimal text, trimmed and
/// lower-cased.
pub open spec fn history_key(n: usize) -> Seq<char> {
    spec_to_lowercase(trim_ws(decimal(n as nat)))
}

/// The key an account index is numbered under.
pub fn account_key(n: usize) -> (r: String)
    ensures
        r@ == history_key(n),
{
    let mut digits = String::new();
    push_decimal(&mut digits, n as u64);
    assert(digits@ =~= decimal(n as nat));
    let trimmed = trim(digits.as_str());
    str_to_lowercase(trimmed.as_str())
}

/// The mathematical value of what the historic loader gathers.
pub ghost struct HistoryView {
    /// The (sender, receiver) pairs, in line order.
    pub graph: Seq<(usize, usize)>,
    /// The transfers, in line order.
    pub rows: Seq<TransactionDataView>,
    /// The account keys in the order they were numbered.
    pub keys: Seq<Seq<char>>,
}

/// The lines of a file as read: each the line's text or the read error's message.
pub open spec fn lines_view(lines: Seq<Result<String, String>>) -> Seq<Result<Seq<char>, Seq<char>>> {
    lines.map_values(
        |l: Result<String, String>|
            match l {
                Ok(t) => Ok(t@),
                Err(e) => Err(e@),
            },
    )
}

/// What the historic loader gathers from `lines`, the first being the header
/// (skipped, whatever it holds): the first read error after the header ends
/// the load with its message.
pub open spec fn history_of(lines: Seq<Result<Seq<char>, Seq<char>>>, block_id: u64) -> Result<
    HistoryView,
    Seq<char>,
>
    decreases lines.len(),
{
    if lines.len() <= 1 {
        Ok(HistoryView { graph: Seq::empty(), rows: Seq::empty(), keys: Seq::empty() })
    } else {
        match history_of(lines.drop_last(), block_id) {
            Err(e) => Err(e),
            Ok(h) => match lines.last() {
                Err(e) => Err(e),
                Ok(line) => match history_row((lines.len() - 1) as nat, line, block_id) {
                    None => Ok(h),
                    Some((f, t, d)) => Ok(
                        HistoryView {
                            graph: h.graph.push((f, t)),
                            rows: h.rows.push(d),
                            keys: with_key(with_key(h.keys, history_key(f)), history_key(t)),
                        },
                    ),
                },
            },
        }
    }
}

/// What the historic loader gathers.
pub struct History {
    /// The (sender, receiver) pairs, in line order.
    pub graph: Vec<(usize, usize)>,
    /// The transfers, in line order.
    pub rows: Vec<TransactionData>,
    /// The numbers of the accounts the transfers name.
    pub account_ids: AccountIds,
}

impl History {
    /// The mathematical value of what was gathered.
    pub open spec fn view_of(&self) -> HistoryView {
        HistoryView {
            graph: self.graph@,
            rows: self.rows@.map_values(|d: TransactionData| d@),
            keys: self.account_ids@,
        }
    }
}

/// Keys never outnumber twice the rows that brought them.
proof fn lemma_history_keys_bounded(lines: Seq<Result<Seq<char>, Seq<char>>>, block_id: u64)
    ensures
        history_of(lines, block_id) matches Ok(h) ==> h.keys.len() <= 2 * h.rows.len()
            && h.rows.len() == h.graph.len() && h.rows.len() < lines.len() + 1,
    decreases lines.len(),
{
    if lines.len() > 1 {
        lemma_history_keys_bounded(lines.drop_last(), block_id);
    }
}

/// Reads historic transfers from the lines of a CSV file, the first being its
/// header, and numbers the accounts they name in order of first appearance.
pub fn load_history(lines: &Vec<Result<String, String>>, block_id: u64) -> (r: Result<
    History,
    String,
>)
    requires
        2 * lines@.len() + 2 < u64::MAX,
    ensures
        r matches Ok(h) ==> history_of(lines_view(lines@), block_id) == Ok::<HistoryView, Seq<char>>(h.view_of()),
        r matches Err(e) ==> history_of(lines_view(lines@), block_id) == Err::<HistoryView, Seq<char>>(e@),
{
    let ghost lv = lines_view(lines@);
    let mut graph: Vec<(usize, usize)> = Vec::new();
    let mut rows: Vec<TransactionData> = Vec::new();
    let mut ids = AccountIds::new();
    let mut i: usize = 1;
    proof {
        assert(rows@.map_values(|d: TransactionData| d@) =~= Seq::<TransactionDataView>::empty());
        if lv.len() >= 1 {
            assert(lv.take(1).len() == 1);
        }
    }
    if lines.len() == 0 {
        assert(lv.take(0) =~= lv);
        return Ok(History { graph, rows, account_ids: ids });
    }
    while i < lines.len()
        invariant
            1 <= i <= lines@.len(),
            2 * lines@.len() + 2 < u64::MAX,
            lv == lines_view(lines@),
            history_of(lv.take(i as int), block_id) == Ok::<HistoryView, Seq<char>>(
                HistoryView {
                    graph: graph@,
                    rows: rows@.map_values(|d: TransactionData| d@),
                    keys: ids@,
                },
            ),
        decreases lines@.len() - i,
    {
        proof {
            assert(lv.take(i + 1).drop_last() =~= lv.take(i as int));
            assert(lv.take(i + 1).last() == lv[i as int]);
            lemma_history_keys_bounded(lv.take(i as int), block_id);
        }
        match &lines[i] {
            Err(e) => {
                proof {
                    assert(lv[i as int] == Err::<Seq<char>, Seq<char>>(e@));
                    lemma_history_error_persists(lv, i as int + 1, block_id);
                }
                return Err(e.clone());
            },
            Ok(line) => {
                assert(lv[i as int] == Ok::<Seq<char>, Seq<char>>(line@));
                match parse_history_row(i, line.as_str(), block_id) {
                    None => {},
                    Some((f, t, d)) => {
                        graph.push((f, t));
                        let ghost before_rows = rows@;
                        rows.push(d);
                        assert(rows@.map_values(|x: TransactionData| x@) =~= before_rows.map_values(
                            |x: TransactionData| x@,
                        ).push(d@));
                        let kf = account_key(f);
                        ids.assign(kf);
                        let kt = account_key(t);
                        ids.assign(kt);
                    },
                }
            },
        }
        i = i + 1;
    }
    assert(lv.take(lines@.len() as int) =~= lv);
    Ok(History { graph, rows, account_ids: ids })
}

/// Once the load of a prefix has failed, the load of the whole fails the
/// same way.
proof fn lemma_history_error_persists(
    lines: Seq<Result<Seq<char>, Seq<char>>>,
    k: int,
    block_id: u64,
)
    requires
        1 <= k <= lines.len(),
        history_of(lines.take(k), block_id) is Err,
    ensures
        history_of(lines, block_id) == history_of(lines.take(k), block_id),
    decreases lines.len() - k,
{
    if k < lines.len() {
        assert(lines.take(k + 1).drop_last() =~= lines.take(k));
        lemma_history_error_persists(lines, k + 1, block_id);
    } else {
        assert(lines.take(k) =~= lines);
    }
}

/// The message for a column that does not parse as an account index.
pub open spec fn index_error_of(which: Seq<char>, line_idx: nat, k: IntErrorKind) -> Seq<char> {
    "Invalid "@ + which + " index at line "@ + decimal(line_idx) + ": "@ + spec_int_error_message(k)
}

/// The message for an account index past the accounts there are.
pub open spec fn range_error_of(line_idx: nat, sender: nat, receiver: nat, accounts: nat) -> Seq<
    char,
> {
    "Account index out of range at line "@ + decimal(line_idx) + ". Sender: "@ + decimal(sender)
        + ", Receiver: "@ + decimal(receiver) + ", Available accounts: "@ + decimal(accounts)
}

/// The number a trimmed column gives, or `default` where it does not parse.
pub open spec fn column_or(col: Seq<char>, default: u64) -> u64 {
    match spec_parse_unsigned(trim_ws(col), u64::MAX as nat) {
        Some(v) => v as u64,
        None => default,
    }
}

/// What the replay makes of one line after the header: nothing for a line
/// with fewer than three comma-separated fields; an error where the first
/// two fields, trimmed, do not parse as `usize` or name an account at or past
/// `num_accounts`; the sender, the receiver and the record otherwise.
pub open spec fn replay_row(line_idx: nat, line: Seq<char>, num_accounts: usize) -> Result<
    Option<(usize, usize, CsvRecordView)>,
    Seq<char>,
> {
    let parts = split_on(line, ',');
    if parts.len() < 3 {
        Ok(None)
    } else {
        match spec_parse_int(trim_ws(parts[0]), usize::MAX as nat) {
            Err(k) => Err(index_error_of("sender"@, line_idx, k)),
            Ok(sn) => match spec_parse_int(trim_ws(parts[1]), usize::MAX as nat) {
                Err(k) => Err(index_error_of("receiver"@, line_idx, k)),
                Ok(rn) => if sn >= num_accounts || rn >= num_accounts {
                    Err(range_error_of(line_idx, sn, rn, num_accounts as nat))
                } else {
                    Ok(
                        Some(
                            (
                                sn as usize,
                                rn as usize,
                                CsvRecordView {
                                    csv_index: (line_idx - 1) as usize,
                                    sender_address: account_label_of(sn),
                                    receiver_address: account_label_of(rn),
                                    amount: column_or(parts[2], 1000000),
                                    timestamp: if parts.len() > 3 {
                                        column_or(parts[3], 0)
                                    } else {
                                        0
                                    },
                                    transaction_hash: "csv_txn_"@ + decimal((line_idx - 1) as nat),
                                },
                            ),
                        ),
                    )
                },
            },
        }
    }
}

/// Builds the message for a column that does not parse as an account index.
fn index_error(which: &str, line_idx: usize, k: IntErrorKind) -> (r: String)
    ensures
        r@ == index_error_of(which@, line_idx as nat, k),
{
    let mut m = String::new();
    push_chars(&mut m, "Invalid ");
    push_chars(&mut m, which);
    push_chars(&mut m, " index at line ");
    push_decimal(&mut m, line_idx as u64);
    push_chars(&mut m, ": ");
    push_chars(&mut m, int_error_message(k));
    assert(m@ =~= index_error_of(which@, line_idx as nat, k));
    m
}

/// The number a trimmed column gives, or `default`.
fn column_value(col: &str, default: u64) -> (r: u64)
    ensures
        r == column_or(col@, default),
{
    let t = trim(col);
    match parse_u64(t.as_str()) {
        Some(v) => v,
        None => default,
    }
}

/// Reads one line after the header as the replay does.
pub fn parse_replay_row(line_idx: usize, line: &str, num_accounts: usize) -> (r: Result<
    Option<(usize, usize, CsvTransactionRecord)>,
    String,
>)
    requires
        line_idx >= 1,
    ensures
        r matches Ok(Some((a, b, c))) ==> replay_row(line_idx as nat, line@, num_accounts) == Ok::<
            Option<(usize, usize, CsvRecordView)>,
            Seq<char>,
        >(Some((a, b, c@))),
        r matches Ok(None) ==> replay_row(line_idx as nat, line@, num_accounts) == Ok::<
            Option<(usize, usize, CsvRecordView)>,
            Seq<char>,
        >(None),
        r matches Err(e) ==> replay_row(line_idx as nat, line@, num_accounts) == Err::<
            Option<(usize, usize, CsvRecordView)>,
            Seq<char>,
        >(e@),
{
    let parts = split(line, ',');
    let ghost views = parts@.map_values(|x: String| x@);
    assert(views == split_on(line@, ','));
    if parts.len() < 3 {
        return Ok(None);
    }
    assert(views[0] == parts[0]@ && views[1] == parts[1]@ && views[2] == parts[2]@);
    let t0 = trim(parts[0].as_str());
    let sender = match parse_usize(t0.as_str()) {
        Ok(v) => v,
        Err(k) => {
            return Err(index_error("sender", line_idx, k));
        },
    };
    let t1 = trim(parts[1].as_str());
    let receiver = match parse_usize(t1.as_str()) {
        Ok(v) => v,
        Err(k) => {
            return Err(index_error("receiver", line_idx, k));
        },
    };
    if sender >= num_accounts || receiver >= num_accounts {
        let mut m = String::new();
        push_chars(&mut m, "Account index out of range at line ");
        push_decimal(&mut m, line_idx as u64);
        push_chars(&mut m, ". Sender: ");
        push_decimal(&mut m, sender as u64);
        push_chars(&mut m, ", Receiver: ");
        push_decimal(&mut m, receiver as u64);
        push_chars(&mut m, ", Available accounts: ");
        push_decimal(&mut m, num_accounts as u64);
        assert(m@ =~= range_error_of(
            line_idx as nat,
            sender as nat,
            receiver as nat,
            num_accounts as nat,
        ));
        return Err(m);
    }
    let amount = column_value(parts[2].as_str(), 1000000);
    let timestamp: u64 = if parts.len() > 3 {
        assert(views[3] == parts[3]@);
        column_value(parts[3].as_str(), 0)
    } else {
        0
    };
    let mut hash = String::new();
    push_chars(&mut hash, "csv_txn_");
    push_decimal(&mut hash, (line_idx - 1) as u64);
    let rec = CsvTransactionRecord {
        csv_index: line_idx - 1,
        sender_address: account_label(sender),
        receiver_address: account_label(receiver),
        amount,
        timestamp,
        transaction_hash: hash,
    };
    assert(rec@.transaction_hash =~= "csv_txn_"@ + decimal((line_idx - 1) as nat));
    Ok(Some((sender, receiver, rec)))
}

/// The message for a line that could not be read.
pub open spec fn read_error_of(line_idx: nat, e: Seq<char>) -> Seq<char> {
    "Failed to read line "@ + decimal(line_idx) + ": "@ + e
}

/// What the replay reads from `lines`, the first being the header (skipped,
/// whatever it holds): the pairs and records of the lines in order, or the
/// first error a line gives.
pub open spec fn replay_of(lines: Seq<Result<Seq<char>, Seq<char>>>, num_accounts: usize) -> Result<
    (Seq<(usize, usize)>, Seq<CsvRecordView>),
    Seq<char>,
>
    decreases lines.len(),
{
    if lines.len() <= 1 {
        Ok((Seq::empty(), Seq::empty()))
    } else {
        match replay_of(lines.drop_last(), num_accounts) {
            Err(e) => Err(e),
            Ok((g, rs)) => match lines.last() {
                Err(e) => Err(read_error_of((lines.len() - 1) as nat, e)),
                Ok(line) => match replay_row((lines.len() - 1) as nat, line, num_accounts) {
                    Err(e) => Err(e),
                    Ok(None) => Ok((g, rs)),
                    Ok(Some((a, b, c))) => Ok((g.push((a, b)), rs.push(c))),
                },
            },
        }
    }
}

/// How many lines the replay looks at: all of them, or with a limit `m` on
/// the transfers, the header and the `m` lines after it.
pub open spec fn replay_limit(len: nat, max: Option<usize>) -> nat {
    match max {
        Some(m) => if m + 1 < len {
            (m + 1) as nat
        } else {
            len
        },
        None => len,
    }
}

/// Once the replay of a prefix has failed, a longer prefix fails the same way.
proof fn lemma_replay_error_persists(
    lines: Seq<Result<Seq<char>, Seq<char>>>,
    k: int,
    n: int,
    num_accounts: usize,
)
    requires
        1 <= k <= n <= lines.len(),
        replay_of(lines.take(k), num_accounts) is Err,
    ensures
        replay_of(lines.take(n), num_accounts) == replay_of(lines.take(k), num_accounts),
    decreases n - k,
{
    if k < n {
        assert(lines.take(k + 1).drop_last() =~= lines.take(k));
        lemma_replay_error_persists(lines, k + 1, n, num_accounts);
    }
}

/// Reads the transfers of a CSV file for the replay, the first line being
/// its header; with `max`, only the first `max` lines after the header.
pub fn load_replay_records(
    lines: &Vec<Result<String, String>>,
    max: Option<usize>,
    num_accounts: usize,
) -> (r: Result<(Vec<(usize, usize)>, Vec<CsvTransactionRecord>), String>)
    ensures
        r matches Ok((g, rs)) ==> replay_of(
            lines_view(lines@).take(replay_limit(lines@.len(), max) as int),
            num_accounts,
        ) == Ok::<(Seq<(usize, usize)>, Seq<CsvRecordView>), Seq<char>>(
            (g@, rs@.map_values(|c: CsvTransactionRecord| c@)),
        ),
        r matches Err(e) ==> replay_of(
            lines_view(lines@).take(replay_limit(lines@.len(), max) as int),
            num_accounts,
        ) == Err::<(Seq<(usize, usize)>, Seq<CsvRecordView>), Seq<char>>(e@),
{
    let ghost lv = lines_view(lines@);
    let limit: usize = match max {
        Some(m) => if lines.len() > 0 && m < lines.len() - 1 {
            m + 1
        } else {
            lines.len()
        },
        None => lines.len(),
    };
    assert(limit == replay_limit(lines@.len(), max));
    let mut graph: Vec<(usize, usize)> = Vec::new();
    let mut records: Vec<CsvTransactionRecord> = Vec::new();
    proof {
        assert(records@.map_values(|c: CsvTransactionRecord| c@) =~= Seq::<CsvRecordView>::empty());
    }
    if limit <= 1 {
        return Ok((graph, records));
    }
    let mut i: usize = 1;
    while i < limit
        invariant
            1 <= i <= limit,
            limit <= lines@.len(),
            limit == replay_limit(lines@.len(), max),
            lv == lines_view(lines@),
            replay_of(lv.take(i as int), num_accounts) == Ok::<
                (Seq<(usize, usize)>, Seq<CsvRecordView>),
                Seq<char>,
            >((graph@, records@.map_values(|c: CsvTransactionRecord| c@))),
        decreases limit - i,
    {
        proof {
            assert(lv.take(i + 1).drop_last() =~= lv.take(i as int));
            assert(lv.take(i + 1).last() == lv[i as int]);
        }
        match &lines[i] {
            Err(e) => {
                let mut m = String::new();
                push_chars(&mut m, "Failed to read line ");
                push_decimal(&mut m, i as u64);
                push_chars(&mut m, ": ");
                push_chars(&mut m, e.as_str());
                proof {
                    assert(lv[i as int] == Err::<Seq<char>, Seq<char>>(e@));
                    assert(m@ =~= read_error_of(i as nat, e@));
                    assert(replay_of(lv.take(i + 1), num_accounts) == Err::<
                        (Seq<(usize, usize)>, Seq<CsvRecordView>),
                        Seq<char>,
                    >(m@));
                    lemma_replay_error_persists(lv, i + 1, limit as int, num_accounts);
                }
                return Err(m);
            },
            Ok(line) => {
                assert(lv[i as int] == Ok::<Seq<char>, Seq<char>>(line@));
                match parse_replay_row(i, line.as_str(), num_accounts) {
                    Err(e) => {
                        proof {
                            assert(replay_of(lv.take(i + 1), num_accounts) == Err::<
                                (Seq<(usize, usize)>, Seq<CsvRecordView>),
                                Seq<char>,
                            >(e@));
                            lemma_replay_error_persists(lv, i + 1, limit as int, num_accounts);
                        }
                        return Err(e);
                    },
                    Ok(None) => {},
                    Ok(Some((a, b, c))) => {
                        graph.push((a, b));
                        let ghost before = records@;
                        records.push(c);
                        assert(records@.map_values(|x: CsvTransactionRecord| x@) =~= before.map_values(
                            |x: CsvTransactionRecord| x@,
                        ).push(c@));
                    },
                }
            },
        }
        i = i + 1;
    }
    Ok((graph, records))
}

/// What SHA-256 gives for the UTF-8 bytes of a text.
pub uninterp spec fn spec_sha256(text: Seq<char>) -> Seq<u8>;

/// Hashes the UTF-8 bytes of `text` with `sha2::Sha256` (`Digest::new`,
/// `update`, `finalize`); the contract ties the digest, by the name
/// `spec_sha256`, to the text, and gives its length, the 32 bytes of the
/// algorithm's output size.
#[verifier::external_body]
fn sha256_digest(text: &str) -> (r: Vec<u8>)
    ensures
        r@ == spec_sha256(text@),
        r@.len() == 32,
{
    let mut hasher = <sha2::Sha256 as sha2::Digest>::new();
    sha2::Digest::update(&mut hasher, text);
    sha2::Digest::finalize(hasher).to_vec()
}

/// The lower-case hexadecimal digit of a value below sixteen.
pub open spec fn hex_digit(v: nat) -> char {
    if v < 10 {
        ((v + ('0' as nat)) as u32) as char
    } else {
        ((v - 10 + ('a' as nat)) as u32) as char
    }
}

/// Bytes in lower-case hexadecimal, two digits each, as the `{:x}` format of
/// a digest prints them.
pub open spec fn hex_lower(bytes: Seq<u8>) -> Seq<char>
    decreases bytes.len(),
{
    if bytes.len() == 0 {
        Seq::empty()
    } else {
        hex_lower(bytes.drop_last()) + seq![
            hex_digit((bytes.last() / 16) as nat),
            hex_digit((bytes.last() % 16) as nat),
        ]
    }
}

/// The lower-case hexadecimal digit of a value below sixteen.
fn hex_char(v: u8) -> (c: char)
    requires
        v < 16,
    ensures
        c == hex_digit(v as nat),
{
    let digits: [char; 16] = [
        '0', '1', '2', '3', '4', '5', '6', '7', '8', '9', 'a', 'b', 'c', 'd', 'e', 'f',
    ];
    let c = digits[v as usize];
    assert(c == hex_digit(v as nat)) by {
        assert(digits@[v as int] == c);
    }
    c
}

/// Bytes in lower-case hexadecimal.
pub fn hex_string(bytes: &Vec<u8>) -> (r: String)
    ensures
        r@ == hex_lower(bytes@),
{
    let mut r = String::new();
    let mut i: usize = 0;
    while i < bytes.len()
        invariant
            i <= bytes@.len(),
            r@ == hex_lower(bytes@.take(i as int)),
        decreases bytes@.len() - i,
    {
        let b = bytes[i];
        string_push(&mut r, hex_char(b / 16));
        string_push(&mut r, hex_char(b % 16));
        proof {
            assert(bytes@.take(i + 1).drop_last() =~= bytes@.take(i as int));
        }
        i = i + 1;
        assert(r@ =~= hex_lower(bytes@.take(i as int)));
    }
    assert(bytes@.take(bytes@.len() as int) =~= bytes@);
    r
}

/// The hash column of a mapping row: the hexadecimal SHA-256 of the raw
/// sender, receiver and value joined by `|`.
pub open spec fn row_hash_of(from_raw: Seq<char>, to_raw: Seq<char>, value_raw: Seq<char>) -> Seq<
    char,
> {
    hex_lower(spec_sha256(from_raw + "|"@ + to_raw + "|"@ + value_raw))
}

/// The hash column of a mapping row.
pub fn row_hash(from_raw: &str, to_raw: &str, value_raw: &str) -> (r: String)
    ensures
        r@ == row_hash_of(from_raw@, to_raw@, value_raw@),
{
    let mut text = String::new();
    push_chars(&mut text, from_raw);
    push_chars(&mut text, "|");
    push_chars(&mut text, to_raw);
    push_chars(&mut text, "|");
    push_chars(&mut text, value_raw);
    assert(text@ =~= from_raw@ + "|"@ + to_raw@ + "|"@ + value_raw@);
    let digest = sha256_digest(text.as_str());
    hex_string(&digest)
}

/// The header line of the row mapping file.
pub open spec fn mapping_header_text() -> Seq<char> {
    "block_id,dataset,source_csv,row_number,tx_index,from_raw,to_raw,value_raw,from_norm,to_norm,from_account_id,to_account_id,key_from_id,key_to_id,included,skip_reason,row_hash"@
}

/// The columns of the mapping row of the `idx`-th transfer (from 0): the
/// block, data set and source file; the line and transfer numbers from 1;
/// the raw sender and receiver (the labels without `account_`) and value;
/// their keys and the account numbers of those keys, twice; `true`, an empty
/// skip reason and the row hash.
pub open spec fn mapping_fields(
    block_id: u64,
    dataset: Seq<char>,
    csv_path: Seq<char>,
    idx: nat,
    d: TransactionDataView,
    keys: Seq<Seq<char>>,
) -> Seq<Seq<char>> {
    let from_raw = remove_all(d.from_address, "account_"@);
    let to_raw = remove_all(d.to_address, "account_"@);
    let value_raw = decimal(d.amount as nat);
    let from_norm = spec_to_lowercase(trim_ws(from_raw));
    let to_norm = spec_to_lowercase(trim_ws(to_raw));
    let from_id = decimal(id_in(keys, from_norm));
    let to_id = decimal(id_in(keys, to_norm));
    seq![
        block_label_of(block_id as nat),
        dataset,
        csv_path,
        decimal((d.transaction_index + 1) as nat),
        decimal(idx + 1),
        from_raw,
        to_raw,
        value_raw,
        from_norm,
        to_norm,
        from_id,
        to_id,
        from_id,
        to_id,
        "true"@,
        Seq::empty(),
        row_hash_of(from_raw, to_raw, value_raw),
    ]
}

/// The mapping row of the `idx`-th transfer (from 0), its columns joined
/// with commas.
pub fn mapping_row(
    block_id: u64,
    dataset: &str,
    csv_path: &str,
    idx: usize,
    d: &TransactionData,
    ids: &AccountIds,
) -> (r: String)
    requires
        d.transaction_index < usize::MAX,
        idx < usize::MAX,
    ensures
        r@ == joined_with_commas(mapping_fields(block_id, dataset@, csv_path@, idx as nat, d@, ids@)),
{
    proof {
        reveal_strlit("account_");
    }
    let from_raw = remove_str(d.from_address.as_str(), "account_");
    let to_raw = remove_str(d.to_address.as_str(), "account_");
    let value_raw = {
        let mut v = String::new();
        push_decimal(&mut v, d.amount);
        assert(v@ =~= decimal(d.amount as nat));
        v
    };
    let from_trim = trim(from_raw.as_str());
    let from_norm = str_to_lowercase(from_trim.as_str());
    let to_trim = trim(to_raw.as_str());
    let to_norm = str_to_lowercase(to_trim.as_str());
    let from_id = ids.id_of(from_norm.as_str());
    let to_id = ids.id_of(to_norm.as_str());
    let hash = row_hash(from_raw.as_str(), to_raw.as_str(), value_raw.as_str());
    let mut fields: Vec<String> = Vec::new();
    fields.push(block_label(block_id));
    fields.push(dataset.to_owned());
    fields.push(csv_path.to_owned());
    let mut row_number = String::new();
    push_decimal(&mut row_number, (d.transaction_index + 1) as u64);
    fields.push(row_number);
    let mut tx_index = String::new();
    push_decimal(&mut tx_index, (idx + 1) as u64);
    fields.push(tx_index);
    fields.push(from_raw);
    fields.push(to_raw);
    fields.push(value_raw);
    fields.push(from_norm);
    fields.push(to_norm);
    let mut c = String::new();
    push_decimal(&mut c, from_id);
    fields.push(c);
    let mut c = String::new();
    push_decimal(&mut c, to_id);
    fields.push(c);
    let mut c = String::new();
    push_decimal(&mut c, from_id);
    fields.push(c);
    let mut c = String::new();
    push_decimal(&mut c, to_id);
    fields.push(c);
    fields.push("true".to_owned());
    fields.push(String::new());
    fields.push(hash);
    proof {
        let m = mapping_fields(block_id, dataset@, csv_path@, idx as nat, d@, ids@);
        let fv = fields@.map_values(|x: String| x@);
        assert(fv.len() == 17);
        assert forall|k: int| 0 <= k < 17 implies fv[k] =~= m[k] by {}
        assert(fv =~= m);
    }
    join_with_commas(&fields)
}

/// The lines of the row mapping file of a block: the header, then one row per
/// transfer in order.
pub fn mapping_lines(
    block_id: u64,
    dataset: &str,
    csv_path: &str,
    rows: &Vec<TransactionData>,
    ids: &AccountIds,
) -> (r: Vec<String>)
    requires
        forall|k: int| 0 <= k < rows@.len() ==> #[trigger] rows@[k].transaction_index < usize::MAX,
    ensures
        r@.len() == rows@.len() + 1,
        r@[0]@ == mapping_header_text(),
        forall|k: int|
            0 <= k < rows@.len() ==> #[trigger] r@[k + 1]@ == joined_with_commas(
                mapping_fields(block_id, dataset@, csv_path@, k as nat, rows@[k]@, ids@),
            ),
{
    let mut r: Vec<String> = Vec::new();
    r.push(
        "block_id,dataset,source_csv,row_number,tx_index,from_raw,to_raw,value_raw,from_norm,to_norm,from_account_id,to_account_id,key_from_id,key_to_id,included,skip_reason,row_hash".to_owned(),
    );
    let mut i: usize = 0;
    while i < rows.len()
        invariant
            i <= rows@.len(),
            r@.len() == i + 1,
            r@[0]@ == mapping_header_text(),
            forall|k: int| 0 <= k < rows@.len() ==> #[trigger] rows@[k].transaction_index < usize::MAX,
            forall|k: int|
                0 <= k < i ==> #[trigger] r@[k + 1]@ == joined_with_commas(
                    mapping_fields(block_id, dataset@, csv_path@, k as nat, rows@[k]@, ids@),
                ),
        decreases rows@.len() - i,
    {
        let line = mapping_row(block_id, dataset, csv_path, i, &rows[i], ids);
        r.push(line);
        i = i + 1;
    }
    r
}

/// A key and a value of a metric's additional data.
fn data_pair(key: &str, value: String) -> (r: (String, String))
    ensures
        r.0@ == key@,
        r.1@ == value@,
{
    (key.to_owned(), value)
}

/// A number as its decimal text.
fn number_text(n: u64) -> (r: String)
    ensures
        r@ == decimal(n as nat),
{
    let mut s = String::new();
    push_decimal(&mut s, n);
    assert(s@ =~= decimal(n as nat));
    s
}

/// The additional data of the metric that maps the `k`-th loaded transfer
/// to its place in the block.
pub open spec fn mapping_data_of(d: TransactionDataView, block_id: u64, k: nat) -> Seq<
    (Seq<char>, Seq<char>),
> {
    seq![
        ("csv_index"@, decimal(d.transaction_index as nat)),
        ("block_id"@, decimal(block_id as nat)),
        ("mapping_type"@, "CSV_to_BlockSTM"@),
        ("transaction_hash"@, d.transaction_hash),
        ("block_stm_index"@, decimal(k)),
    ]
}

/// One metric to log: its position in the block (the metric's value and,
/// truncated to a transaction index, its transaction) and its additional data.
pub struct MappingMetric {
    /// The transfer's position in the block.
    pub index: usize,
    /// The position as a transaction index.
    pub txn_id: u32,
    /// The metric's additional data.
    pub data: Vec<(String, String)>,
}

/// The mapping metrics of the loaded transfers: one for each transfer that
/// has a transaction in the block (the first `txn_count`), in order.
pub fn transaction_mapping_metrics(rows: &Vec<TransactionData>, txn_count: usize, block_id: u64) -> (r:
    Vec<MappingMetric>)
    ensures
        r@.len() == (if rows@.len() < txn_count {
            rows@.len()
        } else {
            txn_count as nat
        }),
        forall|k: int|
            0 <= k < r@.len() ==> (#[trigger] r@[k]).index == k && r@[k].txn_id == k as u32
                && pairs_view(r@[k].data@) == mapping_data_of(rows@[k]@, block_id, k as nat),
{
    let mut r: Vec<MappingMetric> = Vec::new();
    let mut k: usize = 0;
    while k < rows.len() && k < txn_count
        invariant
            k <= rows@.len(),
            k <= txn_count,
            r@.len() == k,
            forall|j: int|
                0 <= j < k ==> (#[trigger] r@[j]).index == j && r@[j].txn_id == j as u32
                    && pairs_view(r@[j].data@) == mapping_data_of(rows@[j]@, block_id, j as nat),
        decreases rows@.len() - k,
    {
        let d = &rows[k];
        let mut data: Vec<(String, String)> = Vec::new();
        data.push(data_pair("csv_index", number_text(d.transaction_index as u64)));
        data.push(data_pair("block_id", number_text(block_id)));
        data.push(data_pair("mapping_type", "CSV_to_BlockSTM".to_owned()));
        data.push(data_pair("transaction_hash", d.transaction_hash.clone()));
        data.push(data_pair("block_stm_index", number_text(k as u64)));
        assert(pairs_view(data@) =~= mapping_data_of(rows@[k as int]@, block_id, k as nat));
        r.push(MappingMetric { index: k, txn_id: k as u32, data });
        k = k + 1;
    }
    r
}

/// The additional data of the metric that details the `k`-th replayed record.
pub open spec fn detailed_mapping_data_of(c: CsvRecordView, block_id: u64) -> Seq<
    (Seq<char>, Seq<char>),
> {
    seq![
        ("csv_index"@, decimal(c.csv_index as nat)),
        ("block_id"@, decimal(block_id as nat)),
        ("transaction_hash"@, c.transaction_hash),
        ("sender_address"@, c.sender_address),
        ("receiver_address"@, c.receiver_address),
        ("amount"@, decimal(c.amount as nat)),
    ]
}

/// The detailed mapping metrics of the replayed records: one for each record
/// that has a transaction in the block (the first `txn_count`), in order.
pub fn detailed_mapping_metrics(
    records: &Vec<CsvTransactionRecord>,
    txn_count: usize,
    block_id: u64,
) -> (r: Vec<MappingMetric>)
    ensures
        r@.len() == (if records@.len() < txn_count {
            records@.len()
        } else {
            txn_count as nat
        }),
        forall|k: int|
            0 <= k < r@.len() ==> (#[trigger] r@[k]).index == k && r@[k].txn_id == k as u32
                && pairs_view(r@[k].data@) == detailed_mapping_data_of(records@[k]@, block_id),
{
    let mut r: Vec<MappingMetric> = Vec::new();
    let mut k: usize = 0;
    while k < records.len() && k < txn_count
        invariant
            k <= records@.len(),
            k <= txn_count,
            r@.len() == k,
            forall|j: int|
                0 <= j < k ==> (#[trigger] r@[j]).index == j && r@[j].txn_id == j as u32
                    && pairs_view(r@[j].data@) == detailed_mapping_data_of(records@[j]@, block_id),
        decreases records@.len() - k,
    {
        let c = &records[k];
        let mut data: Vec<(String, String)> = Vec::new();
        data.push(data_pair("csv_index", number_text(c.csv_index as u64)));
        data.push(data_pair("block_id", number_text(block_id)));
        data.push(data_pair("transaction_hash", c.transaction_hash.clone()));
        data.push(data_pair("sender_address", c.sender_address.clone()));
        data.push(data_pair("receiver_address", c.receiver_address.clone()));
        data.push(data_pair("amount", number_text(c.amount)));
        assert(pairs_view(data@) =~= detailed_mapping_data_of(records@[k as int]@, block_id));
        r.push(MappingMetric { index: k, txn_id: k as u32, data });
        k = k + 1;
    }
    r
}

/// The additional data of the metric on a run's outcome.
pub open spec fn execution_results_data_of(successful: nat, failed: nat, aborts: nat, stalls: nat) -> Seq<
    (Seq<char>, Seq<char>),
> {
    seq![
        ("successful_count"@, decimal(successful)),
        ("failed_count"@, decimal(failed)),
        ("abort_count"@, decimal(aborts)),
        ("stall_count"@, decimal(stalls)),
    ]
}

/// The additional data of the metric on a run's outcome: how many
/// transactions of `total` succeeded and failed, and the run's aborts and
/// stalls.
pub fn execution_results_data(successful: usize, total: usize, aborts: u64, stalls: u64) -> (r: Vec<
    (String, String),
>)
    requires
        successful <= total,
    ensures
        pairs_view(r@) == execution_results_data_of(
            successful as nat,
            (total - successful) as nat,
            aborts as nat,
            stalls as nat,
        ),
{
    let mut data: Vec<(String, String)> = Vec::new();
    data.push(data_pair("successful_count", number_text(successful as u64)));
    data.push(data_pair("failed_count", number_text((total - successful) as u64)));
    data.push(data_pair("abort_count", number_text(aborts)));
    data.push(data_pair("stall_count", number_text(stalls)));
    assert(pairs_view(data@) =~= execution_results_data_of(
        successful as nat,
        (total - successful) as nat,
        aborts as nat,
        stalls as nat,
    ));
    data
}

/// Transactions per second: the block's size over the run's milliseconds,
/// in whole transactions.
pub fn tps(block_size: usize, exec_ms: u128) -> (r: usize)
    requires
        exec_ms as usize > 0,
        block_size * 1000 <= usize::MAX,
    ensures
        r == (block_size * 1000) as nat / ((exec_ms as usize) as nat),
{
    let ms = exec_ms as usize;
    block_size * 1000 / ms
}

/// The sum of the values.
pub open spec fn sum_of(values: Seq<usize>) -> nat
    decreases values.len(),
{
    if values.len() == 0 {
        0
    } else {
        sum_of(values.drop_last()) + values.last() as nat
    }
}

/// A prefix sums to no more than the whole.
proof fn lemma_sum_prefix(values: Seq<usize>, i: int)
    requires
        0 <= i <= values.len(),
    ensures
        sum_of(values.take(i)) <= sum_of(values),
    decreases values.len() - i,
{
    if i < values.len() {
        lemma_sum_prefix(values, i + 1);
        assert(values.take(i + 1).drop_last() =~= values.take(i));
    } else {
        assert(values.take(i) =~= values);
    }
}

/// The mean of the values, rounded down.
pub fn average(values: &Vec<usize>) -> (r: usize)
    requires
        values@.len() > 0,
        sum_of(values@) <= usize::MAX,
    ensures
        r == sum_of(values@) / values@.len(),
{
    let mut sum: usize = 0;
    let mut i: usize = 0;
    while i < values.len()
        invariant
            i <= values@.len(),
            sum == sum_of(values@.take(i as int)),
            sum_of(values@) <= usize::MAX,
        decreases values@.len() - i,
    {
        proof {
            assert(values@.take(i + 1).drop_last() =~= values@.take(i as int));
            lemma_sum_prefix(values@, i + 1);
        }
        sum = sum + values[i];
        i = i + 1;
    }
    assert(values@.take(values@.len() as int) =~= values@);
    sum / values.len()
}

/// Whether the values are in ascending order.
pub open spec fn ascending(s: Seq<usize>) -> bool {
    forall|i: int, j: int| 0 <= i <= j < s.len() ==> s[i] <= s[j]
}

/// Inserting a value at a position adds it to the multiset of the values.
proof fn lemma_insert_multiset(s: Seq<usize>, i: int, a: usize)
    requires
        0 <= i <= s.len(),
    ensures
        s.insert(i, a).to_multiset() =~= s.to_multiset().insert(a),
{
    broadcast use vstd::seq_lib::group_to_multiset_ensures;

    let l = s.take(i);
    let r = s.skip(i);
    assert(s =~= l + r);
    assert(s.insert(i, a) =~= l.push(a) + r);
    vstd::seq_lib::lemma_multiset_commutative(l, r);
    vstd::seq_lib::lemma_multiset_commutative(l.push(a), r);
}

/// Sorts the values in ascending order (std's `sort` on a slice of integers).
pub fn sort_values(v: &mut Vec<usize>)
    ensures
        ascending(final(v)@),
        final(v)@.to_multiset() == old(v)@.to_multiset(),
{
    let mut r: Vec<usize> = Vec::new();
    let mut i: usize = 0;
    proof {
        assert(v@.take(0) =~= Seq::<usize>::empty());
        assert(r@ =~= Seq::<usize>::empty());
    }
    while i < v.len()
        invariant
            i <= v@.len(),
            ascending(r@),
            r@.to_multiset() == v@.take(i as int).to_multiset(),
        decreases v@.len() - i,
    {
        let x = v[i];
        let mut pos: usize = 0;
        while pos < r.len() && r[pos] <= x
            invariant
                pos <= r@.len(),
                forall|j: int| 0 <= j < pos ==> r@[j] <= x,
            decreases r@.len() - pos,
        {
            pos = pos + 1;
        }
        let ghost before = r@;
        r.insert(pos, x);
        proof {
            assert(r@ == before.insert(pos as int, x));
            assert forall|a: int, b: int| 0 <= a <= b < r@.len() implies r@[a] <= r@[b] by {
                if pos < before.len() {
                    assert(before[pos as int] > x);
                }
                if a < pos as int && b > pos as int {
                    assert(r@[b] == before[b - 1]);
                    assert(before[b - 1] >= before[pos as int]);
                }
            }
            lemma_insert_multiset(before, pos as int, x);
            broadcast use vstd::seq_lib::group_to_multiset_ensures;
            assert(v@.take(i + 1) =~= v@.take(i as int).push(x));
        }
        i = i + 1;
    }
    assert(v@.take(v@.len() as int) =~= v@);
    *v = r;
}

/// The figures of one point of a parameter sweep: the mean sequential and
/// parallel throughput of the runs made, and the parallel speed-up where both
/// were made.
pub struct SweepFigures {
    /// The mean sequential TPS, where sequential runs were made.
    pub seq_avg: Option<usize>,
    /// The mean parallel TPS, where parallel runs were made.
    pub par_avg: Option<usize>,
    /// Parallel over sequential TPS, where both were made.
    pub speedup: Option<usize>,
}

/// The figures of one point of a sweep, from its parallel and sequential
/// measurements.
pub fn sweep_figures(par: &Vec<usize>, seq: &Vec<usize>, run_par: bool, run_seq: bool) -> (r:
    SweepFigures)
    requires
        run_seq ==> seq@.len() > 0 && sum_of(seq@) <= usize::MAX,
        run_par ==> par@.len() > 0 && sum_of(par@) <= usize::MAX,
        run_par && run_seq ==> sum_of(seq@) / seq@.len() > 0,
    ensures
        r.seq_avg == (if run_seq {
            Some((sum_of(seq@) / seq@.len()) as usize)
        } else {
            None
        }),
        r.par_avg == (if run_par {
            Some((sum_of(par@) / par@.len()) as usize)
        } else {
            None
        }),
        r.speedup == (if run_par && run_seq {
            Some(((sum_of(par@) / par@.len()) / (sum_of(seq@) / seq@.len())) as usize)
        } else {
            None
        }),
{
    let mut seq_avg: Option<usize> = None;
    let mut seq_tps: usize = 1;
    if run_seq {
        seq_tps = average(seq);
        seq_avg = Some(seq_tps);
    }
    let mut par_avg: Option<usize> = None;
    let mut speedup: Option<usize> = None;
    if run_par {
        let par_tps = average(par);
        par_avg = Some(par_tps);
        if run_seq {
            speedup = Some(par_tps / seq_tps);
        }
    }
    SweepFigures { seq_avg, par_avg, speedup }
}

/// The points of a sweep: each block size with each account count, block
/// sizes outermost, in the given orders.
pub open spec fn grid_of(block_sizes: Seq<usize>, accounts: Seq<usize>) -> Seq<(usize, usize)>
    decreases block_sizes.len(),
{
    if block_sizes.len() == 0 {
        Seq::empty()
    } else {
        grid_of(block_sizes.drop_last(), accounts) + accounts.map_values(
            |a: usize| (block_sizes.last(), a),
        )
    }
}

/// The points of a sweep, as (block size, account count) pairs.
pub fn sweep_grid(block_sizes: &Vec<usize>, accounts: &Vec<usize>) -> (r: Vec<(usize, usize)>)
    ensures
        r@ == grid_of(block_sizes@, accounts@),
{
    let mut r: Vec<(usize, usize)> = Vec::new();
    let mut i: usize = 0;
    while i < block_sizes.len()
        invariant
            i <= block_sizes@.len(),
            r@ == grid_of(block_sizes@.take(i as int), accounts@),
        decreases block_sizes@.len() - i,
    {
        let b = block_sizes[i];
        let ghost base = r@;
        let mut j: usize = 0;
        while j < accounts.len()
            invariant
                j <= accounts@.len(),
                r@ == base + accounts@.take(j as int).map_values(|a: usize| (b, a)),
            decreases accounts@.len() - j,
        {
            r.push((b, accounts[j]));
            j = j + 1;
            assert(r@ =~= base + accounts@.take(j as int).map_values(|a: usize| (b, a)));
        }
        proof {
            assert(accounts@.take(accounts@.len() as int) =~= accounts@);
            assert(block_sizes@.take(i + 1).drop_last() =~= block_sizes@.take(i as int));
        }
        i = i + 1;
    }
    assert(block_sizes@.take(block_sizes@.len() as int) =~= block_sizes@);
    r
}

/// The block sizes of a sweep: those given, or 1000, 10000 and 50000.
pub fn sweep_block_sizes(given: Option<Vec<usize>>) -> (r: Vec<usize>)
    ensures
        r@ == (match given {
            Some(v) => v@,
            None => seq![1000usize, 10000, 50000],
        }),
{
    match given {
        Some(v) => v,
        None => {
            let r = vec![1000usize, 10000, 50000];
            assert(r@ =~= seq![1000usize, 10000, 50000]);
            r
        },
    }
}

/// One execution of a block in a benchmark.
#[derive(Debug, Clone, Copy, PartialEq, Eq, Structural)]
pub enum BenchRun {
    /// The sequential executor.
    Sequential,
    /// The parallel executor with the given number of threads.
    Parallel(usize),
}

/// The executions a benchmark makes of a block: the parallel one first (on
/// the sequential path where the concurrency is one), then the sequential one.
pub open spec fn bench_runs_of(run_par: bool, run_seq: bool, concurrency: usize) -> Seq<BenchRun> {
    let first = if run_par {
        if concurrency == 1 {
            seq![BenchRun::Sequential]
        } else {
            seq![BenchRun::Parallel(concurrency)]
        }
    } else {
        Seq::empty()
    };
    if run_seq {
        first.push(BenchRun::Sequential)
    } else {
        first
    }
}

/// The executions a benchmark makes of a block.
pub fn bench_runs(run_par: bool, run_seq: bool, concurrency: usize) -> (r: Vec<BenchRun>)
    ensures
        r@ == bench_runs_of(run_par, run_seq, concurrency),
{
    let mut r: Vec<BenchRun> = Vec::new();
    if run_par {
        if concurrency == 1 {
            r.push(BenchRun::Sequential);
        } else {
            r.push(BenchRun::Parallel(concurrency));
        }
    }
    if run_seq {
        r.push(BenchRun::Sequential);
    }
    assert(r@ =~= bench_runs_of(run_par, run_seq, concurrency));
    r
}

/// How many of the first `i` transfers are sent by `sender`.
pub open spec fn sent_before(graph: Seq<(usize, usize)>, i: int, sender: usize) -> nat
    decreases i,
{
    if i <= 0 {
        0
    } else {
        sent_before(graph, i - 1, sender) + if graph[i - 1].0 == sender {
            1nat
        } else {
            0nat
        }
    }
}

/// The sequence number of the `i`-th transfer: its sender's number when
/// the transfers were built, plus the transfers the sender made before it.
pub open spec fn erc20_sequence_number(graph: Seq<(usize, usize)>, initial: Seq<u64>, i: int) -> int {
    (initial[graph[i].0 as int] as usize) + sent_before(graph, i, graph[i].0)
}

/// The sequence numbers of the transfers of an ERC20 replay, in order: each
/// sender starts from its number when the transfers are built and counts up
/// by one per transfer.
pub fn erc20_sequence_numbers(graph: &Vec<(usize, usize)>, initial: &Vec<u64>) -> (r: Vec<u64>)
    requires
        forall|i: int|
            0 <= i < graph@.len() ==> (#[trigger] graph@[i]).0 < initial@.len() && graph@[i].1
                < initial@.len(),
        forall|i: int|
            0 <= i < graph@.len() ==> #[trigger] erc20_sequence_number(graph@, initial@, i)
                <= usize::MAX,
    ensures
        r@.len() == graph@.len(),
        forall|i: int|
            0 <= i < graph@.len() ==> #[trigger] r@[i] == erc20_sequence_number(
                graph@,
                initial@,
                i,
            ) as u64,
{
    let mut next: Vec<Option<usize>> = Vec::new();
    let mut k: usize = 0;
    while k < initial.len()
        invariant
            k <= initial@.len(),
            next@.len() == k,
            forall|a: int| 0 <= a < k ==> next@[a] is None,
        decreases initial@.len() - k,
    {
        next.push(None);
        k = k + 1;
    }
    let mut r: Vec<u64> = Vec::new();
    let mut i: usize = 0;
    while i < graph.len()
        invariant
            i <= graph@.len(),
            next@.len() == initial@.len(),
            r@.len() == i,
            forall|j: int|
                0 <= j < graph@.len() ==> (#[trigger] graph@[j]).0 < initial@.len() && graph@[j].1
                    < initial@.len(),
            forall|j: int|
                0 <= j < graph@.len() ==> #[trigger] erc20_sequence_number(graph@, initial@, j)
                    <= usize::MAX,
            forall|a: usize|
                a < initial@.len() ==> (#[trigger] next@[a as int] matches Some(v) ==> sent_before(
                    graph@,
                    i as int,
                    a,
                ) > 0 && v == (initial@[a as int] as usize) + sent_before(graph@, i as int, a) - 1)
                    && (next@[a as int] is None ==> sent_before(graph@, i as int, a) == 0),
            forall|j: int|
                0 <= j < i ==> #[trigger] r@[j] == erc20_sequence_number(graph@, initial@, j) as u64,
        decreases graph@.len() - i,
    {
        let s = graph[i].0;
        proof {
            assert(erc20_sequence_number(graph@, initial@, i as int) <= usize::MAX);
            assert(next@[s as int] == next@[s as int]);
        }
        let v: usize = match next[s] {
            Some(prev) => prev + 1,
            None => #[verifier::truncate] (initial[s] as usize),
        };
        next.set(s, Some(v));
        r.push(v as u64);
        proof {
            assert forall|a: usize| a < initial@.len() && a != s implies #[trigger] sent_before(
                graph@,
                i + 1,
                a,
            ) == sent_before(graph@, i as int, a) by {}
        }
        i = i + 1;
    }
    r
}

/// Of two transfers of one sender, the later has the larger sequence number:
/// no sequence number is used twice.
pub proof fn lemma_erc20_sequence_numbers_increase(
    graph: Seq<(usize, usize)>,
    initial: Seq<u64>,
    i: int,
    j: int,
)
    requires
        0 <= i < j < graph.len(),
        graph[i].0 == graph[j].0,
        graph[i].0 < initial.len(),
    ensures
        erc20_sequence_number(graph, initial, j) >= erc20_sequence_number(graph, initial, i) + 1,
    decreases j - i,
{
    if j > i + 1 {
        lemma_sent_before_grows(graph, i + 1, j, graph[i].0);
    }
}

/// Counting over a longer prefix counts no fewer.
proof fn lemma_sent_before_grows(graph: Seq<(usize, usize)>, a: int, b: int, sender: usize)
    requires
        0 <= a <= b,
    ensures
        sent_before(graph, a, sender) <= sent_before(graph, b, sender),
    decreases b - a,
{
    if a < b {
        lemma_sent_before_grows(graph, a, b - 1, sender);
    }
}

/// The logging configuration of a benchmark with logging on: with an output
/// directory, every event from `Debug` up into that directory, files of up
/// to 100 MiB and buffers of 10000 bytes; without one, the configuration the
/// environment settings select.
pub fn benchmark_logging_config(
    log_dir: Option<&str>,
    level: Option<&str>,
    dir: Option<&str>,
    max_size_mb: Option<&str>,
) -> (r: LoggingConfig)
    requires
        log_dir is None ==> size_setting_mb(opt_str_view(max_size_mb)) * 1048576 <= u64::MAX,
    ensures
        log_dir matches Some(d) ==> r.enabled && r.log_dir@ == d@ && r.log_level == LogLevel::Debug
            && r.max_file_size == 104857600 && r.buffer_size == 10000 && r.async_logging
            && r.include_read_write_details,
        log_dir is None ==> r.enabled == level.is_some() && r.log_dir@ == (match dir {
            Some(d) => d@,
            None => "./logs"@,
        }) && r.log_level == level_setting(opt_str_view(level)) && r.max_file_size == size_setting_mb(
            opt_str_view(max_size_mb),
        ) * 1048576 && r.buffer_size == 8192 && r.async_logging && r.include_read_write_details,
{
    match log_dir {
        Some(d) => LoggingConfig {
            enabled: true,
            log_dir: d.to_owned(),
            log_level: LogLevel::Debug,
            max_file_size: 100 * 1024 * 1024,
            buffer_size: 10000,
            async_logging: true,
            include_read_write_details: true,
        },
        None => LoggingConfig::from_settings(level, dir, max_size_mb),
    }
}

/// The execution context of a replay of the CSV file at `data_path`: its
/// data set, the path itself, the sampling period that `sample_period_ms`
/// selects and the given read sample rate.
pub fn replay_context(data_path: &str, sample_period_ms: Option<&str>, read_sample_rate_bits: u64) -> (r:
    ExecutionContext)
    ensures
        r@.dataset == dataset_of_path(data_path@),
        r@.source_csv == data_path@,
        r@.sample_period_ms == sample_period_setting(opt_str_view(sample_period_ms)),
        r@.read_sample_rate_bits == read_sample_rate_bits,
{
    let base = ExecutionContext::from_settings(sample_period_ms, read_sample_rate_bits);
    ExecutionContext {
        dataset: dataset_of(data_path),
        source_csv: data_path.to_owned(),
        sample_period_ms: base.sample_period_ms,
        read_sample_rate_bits,
    }
}

/// The figures of a block's metadata file that the library computes.
pub struct MetaFigures {
    /// The block's name.
    pub block_id: String,
    /// The data set of the source file.
    pub dataset: String,
    /// How many transfers were loaded.
    pub tx_count: usize,
    /// The estimated number of accounts: two per transfer.
    pub unique_accounts: usize,
    /// The estimated number of fungible store keys: two per transfer.
    pub fungible_store_keys: usize,
}

/// The computed figures of a block's metadata file.
pub fn meta_figures(block_id: u64, csv_path: &str, tx_count: usize) -> (r: MetaFigures)
    requires
        2 * tx_count <= usize::MAX,
    ensures
        r.block_id@ == block_label_of(block_id as nat),
        r.dataset@ == dataset_of_path(csv_path@),
        r.tx_count == tx_count,
        r.unique_accounts == 2 * tx_count,
        r.fungible_store_keys == 2 * tx_count,
{
    MetaFigures {
        block_id: block_label(block_id),
        dataset: dataset_of(csv_path),
        tx_count,
        unique_accounts: tx_count * 2,
        fungible_store_keys: tx_count * 2,
    }
}

/// Whether no key occurs twice.
pub open spec fn keys_distinct(ks: Seq<Seq<char>>) -> bool {
    forall|i: int, j: int| 0 <= i < j < ks.len() ==> ks[i] != ks[j]
}

/// Numbering a key keeps the numbered keys free of repeats, and the key has
/// a number afterwards.
pub proof fn lemma_with_key_keeps_keys_distinct(ks: Seq<Seq<char>>, k: Seq<char>)
    requires
        keys_distinct(ks),
    ensures
        keys_distinct(with_key(ks, k)),
        id_in(with_key(ks, k), k) >= 1,
{
    lemma_first_position_holds(ks, k);
    lemma_first_position_holds(with_key(ks, k), k);
    if first_position(ks, k) is None {
        let ks2 = ks.push(k);
        assert forall|i: int, j: int| 0 <= i < j < ks2.len() implies ks2[i] != ks2[j] by {
            if j == ks.len() {
                assert(ks2[i] == ks[i]);
            }
        }
        lemma_first_position(ks2, k, ks.len() as int);
    }
}

/// Two different keys that both have numbers have different numbers.
pub proof fn lemma_account_numbers_distinct(ks: Seq<Seq<char>>, a: Seq<char>, b: Seq<char>)
    requires
        a != b,
        id_in(ks, a) >= 1,
        id_in(ks, b) >= 1,
    ensures
        id_in(ks, a) != id_in(ks, b),
{
    lemma_first_position_holds(ks, a);
    lemma_first_position_holds(ks, b);
}

/// The keys the historic loader numbers never repeat, and every account a
/// loaded transfer names has a number.
pub proof fn lemma_history_keys_distinct(lines: Seq<Result<Seq<char>, Seq<char>>>, block_id: u64)
    ensures
        history_of(lines, block_id) matches Ok(h) ==> keys_distinct(h.keys) && forall|k: int|
            0 <= k < h.graph.len() ==> id_in(h.keys, history_key(#[trigger] h.graph[k].0)) >= 1
                && id_in(h.keys, history_key(h.graph[k].1)) >= 1,
    decreases lines.len(),
{
    if lines.len() > 1 {
        lemma_history_keys_distinct(lines.drop_last(), block_id);
        if let Ok(h) = history_of(lines.drop_last(), block_id) {
            if let Ok(line) = lines.last() {
                if let Some((f, t, d)) = history_row((lines.len() - 1) as nat, line, block_id) {
                    let k1 = with_key(h.keys, history_key(f));
                    let k2 = with_key(k1, history_key(t));
                    lemma_with_key_keeps_keys_distinct(h.keys, history_key(f));
                    lemma_with_key_keeps_keys_distinct(k1, history_key(t));
                    assert forall|ks: Seq<Seq<char>>, k: Seq<char>, x: Seq<char>|
                        id_in(ks, x) >= 1 implies #[trigger] id_in(with_key(ks, k), x) >= 1 by {
                        lemma_with_key_keeps_ids(ks, k, x);
                    }
                    let g2 = h.graph.push((f, t));
                    assert forall|k: int| 0 <= k < g2.len() implies id_in(
                        k2,
                        history_key(#[trigger] g2[k].0),
                    ) >= 1 && id_in(k2, history_key(g2[k].1)) >= 1 by {
                        if k < h.graph.len() {
                            assert(g2[k] == h.graph[k]);
                            assert(id_in(k1, history_key(g2[k].0)) >= 1);
                            assert(id_in(k1, history_key(g2[k].1)) >= 1);
                        } else {
                            assert(id_in(k2, history_key(f)) >= 1);
                        }
                    }
                }
            }
        }
    }
}

/// Numbering another key leaves the numbers already handed out as they were.
proof fn lemma_with_key_keeps_ids(ks: Seq<Seq<char>>, k: Seq<char>, x: Seq<char>)
    requires
        id_in(ks, x) >= 1,
    ensures
        id_in(with_key(ks, k), x) == id_in(ks, x),
{
    lemma_first_position_holds(ks, x);
    lemma_first_position_holds(ks, k);
    if first_position(ks, k) is None {
        let p = first_position(ks, x)->Some_0;
        assert forall|j: int| 0 <= j < p implies ks.push(k)[j] != x by {
            lemma_first_before(ks, x, j);
        }
        lemma_first_position(ks.push(k), x, p as int);
    }
}

/// No index before the first position holds the key.
proof fn lemma_first_before(ks: Seq<Seq<char>>, k: Seq<char>, j: int)
    requires
        first_position(ks, k) matches Some(p) && 0 <= j < p,
    ensures
        ks[j] != k,
    decreases ks.len(),
{
    lemma_first_position_holds(ks, k);
    if j > 0 {
        lemma_first_before(ks.drop_first(), k, j - 1);
        assert(ks.drop_first()[j - 1] == ks[j]);
    }
}

/// The hexadecimal text has two digits per byte.
pub proof fn lemma_hex_length(bytes: Seq<u8>)
    ensures
        hex_lower(bytes).len() == 2 * bytes.len(),
    decreases bytes.len(),
{
    if bytes.len() > 0 {
        lemma_hex_length(bytes.drop_last());
    }
}
} // verus!
