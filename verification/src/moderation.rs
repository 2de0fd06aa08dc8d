//! Decision kernels for the transport layer: who counts as an admin, where
//! a spam notification goes, and which messages are commands rather than
//! text to score.
//!
//! The transport layer fetches chat data (admin lists, chat kind) itself
//! and hands plain values in; these functions make the decisions.

use vstd::prelude::*;
use vstd::string::StrSliceExecFns;
use vstd::string::StringExecFns;

verus! {

/// Whether the acting user may administer: everyone in a private chat,
/// otherwise exactly the members of the chat's admin list.
pub fn decide_admin(chat_is_private: bool, admin_ids: &Vec<u64>, user_id: u64) -> (r: bool)
    ensures
        r == (chat_is_private || admin_ids@.contains(user_id)),
{
    if chat_is_private {
        return true;
    }
    let mut i: usize = 0;
    while i < admin_ids.len()
        invariant
            i <= admin_ids@.len(),
            forall|m: int| 0 <= m < i ==> admin_ids@[m] != user_id,
        decreases admin_ids@.len() - i,
    {
        if admin_ids[i] == user_id {
            proof {
                assert(admin_ids@[i as int] == user_id);
            }
            return true;
        }
        i += 1;
    }
    proof {
        assert(!admin_ids@.contains(user_id));
    }
    false
}

/// Where a spam notification is delivered.
#[derive(Debug, PartialEq, Eq, Structural)]
pub enum NotifyRoute {
    /// Post in the chat itself: the chat is private, the admin list could
    /// not be fetched, or it came back empty.
    ToChat,
    /// Send a private message to each admin on the fetched list.
    ToEachAdmin,
}

/// Picks the delivery route for a spam notification: each admin privately
/// when the chat is a group and a non-empty admin list was fetched
/// (`None` means the fetch failed), otherwise the chat itself.
pub fn route_notification(is_group: bool, admins: Option<&Vec<u64>>) -> (r: NotifyRoute)
    ensures
        r is ToEachAdmin <==> (is_group && (admins matches Some(a) && a@.len() > 0)),
{
    if !is_group {
        return NotifyRoute::ToChat;
    }
    match admins {
        None => NotifyRoute::ToChat,
        Some(a) => {
            if a.len() == 0 {
                NotifyRoute::ToChat
            } else {
                NotifyRoute::ToEachAdmin
            }
        },
    }
}

/// Whether a message is a bot command (starts with `'/'`) and is therefore
/// not scored.
pub fn is_command(text: &str) -> (r: bool)
    ensures
        r == (text@.len() > 0 && text@[0] == '/'),
{
    if text.unicode_len() == 0 {
        false
    } else {
        text.get_char(0) == '/'
    }
}

/// The character for one decimal digit.
pub open spec fn digit_char(d: int) -> char {
    if d == 0 {
        '0'
    } else if d == 1 {
        '1'
    } else if d == 2 {
        '2'
    } else if d == 3 {
        '3'
    } else if d == 4 {
        '4'
    } else if d == 5 {
        '5'
    } else if d == 6 {
        '6'
    } else if d == 7 {
        '7'
    } else if d == 8 {
        '8'
    } else {
        '9'
    }
}

fn digit_char_of(d: u64) -> (c: char)
    requires
        d < 10,
    ensures
        c == digit_char(d as int),
{
    if d == 0 {
        '0'
    } else if d == 1 {
        '1'
    } else if d == 2 {
        '2'
    } else if d == 3 {
        '3'
    } else if d == 4 {
        '4'
    } else if d == 5 {
        '5'
    } else if d == 6 {
        '6'
    } else if d == 7 {
        '7'
    } else if d == 8 {
        '8'
    } else {
        '9'
    }
}

/// The decimal digits of a non-negative number, most significant first.
pub open spec fn spec_decimal_nat(n: int) -> Seq<char>
    decreases n,
{
    if n < 10 {
        seq![digit_char(n)]
    } else {
        spec_decimal_nat(n / 10).push(digit_char(n % 10))
    }
}

/// The decimal rendering of an integer, with a minus sign when negative.
pub open spec fn spec_decimal(n: int) -> Seq<char> {
    if n < 0 {
        seq!['-'] + spec_decimal_nat(-n)
    } else {
        spec_decimal_nat(n)
    }
}

/// Relies on `String::push`: appends exactly the given character.
#[verifier::external_body]
fn string_push_char(s: &mut String, c: char)
    ensures
        final(s)@ == old(s)@.push(c),
{
    s.push(c);
}

/// Renders an integer in decimal, exactly as `spec_decimal` describes.
pub fn decimal_string(n: i64) -> (r: String)
    ensures
        r@ == spec_decimal(n as int),
{
    let neg = n < 0;
    let mut m: u64 = if n == i64::MIN {
        9223372036854775808
    } else if n < 0 {
        (-n) as u64
    } else {
        n as u64
    };
    let ghost m0: int = m as int;
    proof {
        assert(m0 == if n < 0 {
            -(n as int)
        } else {
            n as int
        });
    }

    // Collect the digits, least significant first.
    let mut digits: Vec<char> = Vec::new();
    if m == 0 {
        digits.push('0');
        proof {
            assert(digits@.reverse() =~= seq![digit_char(0)]);
        }
    }
    while m > 0
        invariant
            m0 >= 0,
            m > 0 ==> spec_decimal_nat(m0) == spec_decimal_nat(m as int) + digits@.reverse(),
            m == 0 ==> spec_decimal_nat(m0) == digits@.reverse(),
        decreases m,
    {
        let ghost entry_m: int = m as int;
        let ghost prev: Seq<char> = digits@;
        let d = m % 10;
        let c = digit_char_of(d);
        digits.push(c);
        m = m / 10;
        proof {
            assert(prev.push(c).reverse() =~= seq![c] + prev.reverse());
            if entry_m >= 10 {
                assert(spec_decimal_nat(entry_m) == spec_decimal_nat(m as int).push(c));
                assert(spec_decimal_nat(m as int).push(c) + prev.reverse() =~= spec_decimal_nat(
                    m as int,
                ) + (seq![c] + prev.reverse()));
            } else {
                assert(spec_decimal_nat(entry_m) =~= seq![c]);
                assert(seq![c] + prev.reverse() =~= spec_decimal_nat(entry_m) + prev.reverse());
            }
        }
    }

    // Emit the sign, then the digits most significant first.
    let mut out = String::new();
    if neg {
        string_push_char(&mut out, '-');
        proof {
            assert(out@ =~= seq!['-']);
        }
    }
    let ghost sign: Seq<char> = if neg {
        seq!['-']
    } else {
        Seq::empty()
    };
    proof {
        assert(out@ =~= sign);
        assert(digits@.reverse().take(0) =~= Seq::<char>::empty());
        assert(out@ =~= sign + digits@.reverse().take(0));
    }
    let total = digits.len();
    let mut i: usize = total;
    while i > 0
        invariant
            i <= total == digits@.len(),
            out@ == sign + digits@.reverse().take(total - i),
        decreases i,
    {
        let ghost prev_out: Seq<char> = out@;
        i -= 1;
        let c = digits[i];
        string_push_char(&mut out, c);
        proof {
            assert(digits@.reverse()[total - i - 1] == digits@[i as int]);
            assert(digits@.reverse().take(total - i) =~= digits@.reverse().take(
                total - i - 1,
            ).push(digits@[i as int]));
            assert(out@ =~= sign + digits@.reverse().take(total - i));
        }
    }
    proof {
        assert(digits@.reverse().take(total as int) =~= digits@.reverse());
        assert(out@ =~= spec_decimal(n as int));
    }
    out
}

/// The notification text shown for a detected spam message: the message,
/// the sender, and the sender's spam-flag count.
pub open spec fn spec_notification_text(
    text: Seq<char>,
    user_id: Seq<char>,
    score: int,
) -> Seq<char> {
    "Spam detected: "@ + text + "\nSender ID: "@ + user_id + "\nSpam Score: "@ + spec_decimal(
        score,
    )
}

/// Builds the admin notification for a spam message, exactly as
/// `spec_notification_text` describes.
pub fn notification_text(text: &str, user_id: &str, score: i64) -> (r: String)
    ensures
        r@ == spec_notification_text(text@, user_id@, score as int),
{
    let mut out = String::from_str("Spam detected: ");
    out.append(text);
    out.append("\nSender ID: ");
    out.append(user_id);
    out.append("\nSpam Score: ");
    let rendered = decimal_string(score);
    out.append(rendered.as_str());
    proof {
        assert(out@ =~= spec_notification_text(text@, user_id@, score as int));
    }
    out
}

} // verus!
