//! The texts that a check reports and logs.
use vstd::prelude::*;

verus! {

/// Why a check stops where switching is turned off.
pub const DISABLED: &'static str = "自动切换功能未启用";

/// Why a check stops where nobody is signed in.
pub const NO_ACTIVE_ACCOUNT: &'static str = "未检测到当前活跃的 Windsurf 账号";

/// Why a check stops where no account can replace an exhausted one.
pub const NO_OTHER_ACCOUNT: &'static str = "当前账号已耗尽，但没有其他可用账号";

/// What is said of a failed switch that gives no reason.
pub const UNKNOWN_ERROR: &'static str = "未知错误";

/// The character of a decimal digit.
pub open spec fn digit(d: nat) -> char {
    (48 + d) as char
}

/// A natural number in decimal notation.
pub open spec fn digits(n: nat) -> Seq<char>
    decreases n,
{
    if n < 10 {
        seq![digit(n)]
    } else {
        digits(n / 10).push(digit(n % 10))
    }
}

/// An integer in decimal notation.
pub open spec fn decimal(n: int) -> Seq<char> {
    if n < 0 {
        seq!['-'] + digits((-n) as nat)
    } else {
        digits(n as nat)
    }
}

fn digit_text(d: u64) -> (r: &'static str)
    requires
        d < 10,
    ensures
        r@ == seq![digit(d as nat)],
{
    proof {
        reveal_strlit("0");
        reveal_strlit("1");
        reveal_strlit("2");
        reveal_strlit("3");
        reveal_strlit("4");
        reveal_strlit("5");
        reveal_strlit("6");
        reveal_strlit("7");
        reveal_strlit("8");
        reveal_strlit("9");
    }
    if d == 0 {
        "0"
    } else if d == 1 {
        "1"
    } else if d == 2 {
        "2"
    } else if d == 3 {
        "3"
    } else if d == 4 {
        "4"
    } else if d == 5 {
        "5"
    } else if d == 6 {
        "6"
    } else if d == 7 {
        "7"
    } else if d == 8 {
        "8"
    } else {
        "9"
    }
}

fn append_digits(text: &mut String, n: u64)
    ensures
        final(text)@ == old(text)@ + digits(n as nat),
    decreases n,
{
    if n >= 10 {
        append_digits(text, n / 10);
    }
    text.append(digit_text(n % 10));
    assert(text@ =~= old(text)@ + digits(n as nat));
}

/// Writes `n` in decimal notation at the end of `text`.
pub fn append_decimal(text: &mut String, n: i64)
    ensures
        final(text)@ == old(text)@ + decimal(n as int),
{
    if n < 0 {
        proof {
            reveal_strlit("-");
        }
        text.append("-");
        append_digits(text, (-(n as i128)) as u64);
        assert(text@ =~= old(text)@ + decimal(n as int));
    } else {
        append_digits(text, n as u64);
    }
}

/// Why a check stops where it cannot be told who is signed in.
pub open spec fn unidentified(error: Seq<char>) -> Seq<char> {
    NO_ACTIVE_ACCOUNT@ + ": "@ + error
}

pub fn unidentified_text(error: &str) -> (r: String)
    ensures
        r@ == unidentified(error@),
{
    let mut text: String = NO_ACTIVE_ACCOUNT.to_owned();
    text.append(": ");
    text.append(error);
    text
}

/// Why a check stops where the library of accounts lacks the current one.
pub open spec fn not_in_library(email: Seq<char>) -> Seq<char> {
    "当前账号 "@ + email + " 未在账号库中（请先导入）"@
}

pub fn not_in_library_text(email: &str) -> (r: String)
    ensures
        r@ == not_in_library(email@),
{
    let mut text: String = "当前账号 ".to_owned();
    text.append(email);
    text.append(" 未在账号库中（请先导入）");
    text
}

/// Why a check stops where the current account has no token.
pub open spec fn lacks_token(email: Seq<char>) -> Seq<char> {
    "当前账号 "@ + email + " 缺少有效 Token，无法查询配额"@
}

pub fn lacks_token_text(email: &str) -> (r: String)
    ensures
        r@ == lacks_token(email@),
{
    let mut text: String = "当前账号 ".to_owned();
    text.append(email);
    text.append(" 缺少有效 Token，无法查询配额");
    text
}

/// Why a check stops where the current account's quota is not to be had.
pub open spec fn quota_unknown(error: Seq<char>) -> Seq<char> {
    "查询配额失败: "@ + error
}

pub fn quota_unknown_text(error: &str) -> (r: String)
    ensures
        r@ == quota_unknown(error@),
{
    let mut text: String = "查询配额失败: ".to_owned();
    text.append(error);
    text
}

/// Why a check stops where the current account still serves.
pub open spec fn still_serves(
    usage: int,
    threshold: int,
    remaining: int,
    floor: int,
) -> Seq<char> {
    "未达切换条件（使用率 "@ + decimal(usage) + "% < "@ + decimal(threshold) + "% 或剩余 "@
        + decimal(remaining) + "% > "@ + decimal(floor) + "%）"@
}

pub fn still_serves_text(usage: i32, threshold: i32, remaining: i32, floor: i32) -> (r: String)
    ensures
        r@ == still_serves(usage as int, threshold as int, remaining as int, floor as int),
{
    let mut text: String = "未达切换条件（使用率 ".to_owned();
    append_decimal(&mut text, usage as i64);
    text.append("% < ");
    append_decimal(&mut text, threshold as i64);
    text.append("% 或剩余 ");
    append_decimal(&mut text, remaining as i64);
    text.append("% > ");
    append_decimal(&mut text, floor as i64);
    text.append("%）");
    text
}

/// Why a check stops where `n` accounts were tried and none serves.
pub open spec fn none_serves(n: nat) -> Seq<char> {
    if n == 0 {
        NO_OTHER_ACCOUNT@
    } else {
        "当前账号已耗尽，验证了 "@ + decimal(n as int) + " 个候选账号实时配额均不达标"@
    }
}

pub fn none_serves_text(n: u32) -> (r: String)
    ensures
        r@ == none_serves(n as nat),
{
    if n == 0 {
        NO_OTHER_ACCOUNT.to_owned()
    } else {
        let mut text: String = "当前账号已耗尽，验证了 ".to_owned();
        append_decimal(&mut text, n as i64);
        text.append(" 个候选账号实时配额均不达标");
        text
    }
}

/// Why a check ends without a switch where switching failed.
pub open spec fn switch_failed(error: Seq<char>) -> Seq<char> {
    "切换失败: "@ + error
}

pub fn switch_failed_text(error: &str) -> (r: String)
    ensures
        r@ == switch_failed(error@),
{
    let mut text: String = "切换失败: ".to_owned();
    text.append(error);
    text
}

/// What is logged of a failed switch.
pub open spec fn failure_log(from: Seq<char>, to: Seq<char>, error: Seq<char>) -> Seq<char> {
    "自动切换失败: "@ + from + " → "@ + to + " ("@ + error + ")"@
}

pub fn failure_log_text(from: &str, to: &str, error: &str) -> (r: String)
    ensures
        r@ == failure_log(from@, to@, error@),
{
    let mut text: String = "自动切换失败: ".to_owned();
    text.append(from);
    text.append(" → ");
    text.append(to);
    text.append(" (");
    text.append(error);
    text.append(")");
    text
}

/// What is logged of a switch.
pub open spec fn success_log(
    from: Seq<char>,
    to: Seq<char>,
    usage: int,
    remaining: int,
) -> Seq<char> {
    "自动切换成功（额度耗尽）: "@ + from + " → "@ + to + " [当前使用率 "@ + decimal(usage)
        + "%, 剩余 "@ + decimal(remaining) + "%]"@
}

pub fn success_log_text(from: &str, to: &str, usage: i32, remaining: i32) -> (r: String)
    ensures
        r@ == success_log(from@, to@, usage as int, remaining as int),
{
    let mut text: String = "自动切换成功（额度耗尽）: ".to_owned();
    text.append(from);
    text.append(" → ");
    text.append(to);
    text.append(" [当前使用率 ");
    append_decimal(&mut text, usage as i64);
    text.append("%, 剩余 ");
    append_decimal(&mut text, remaining as i64);
    text.append("%]");
    text
}

} // verus!
