//! Avatar URLs on the chat platform's CDN: the default avatar picked by
//! discriminator, a user's own avatar, and a per-guild member avatar,
//! each in one of the four supported image formats.

use vstd::prelude::*;
use vstd::arithmetic::div_mod::{
    lemma_div_is_strictly_smaller, lemma_fundamental_div_mod, lemma_mod_division_less_than_divisor,
};
use vstd::string::StringExecFns;

verus! {

/// The image formats the CDN can serve an avatar in.
#[derive(Clone, Copy, Debug, PartialEq, Eq, Structural)]
pub enum PJWG {
    /// Portable Network Graphics.
    PNG,
    /// JPEG.
    JPEG,
    /// WebP.
    WebP,
    /// GIF.
    GIF,
}

impl PJWG {
    /// The format's file extension.
    pub open spec fn spec_str(self) -> Seq<char> {
        match self {
            PJWG::PNG => "png"@,
            PJWG::JPEG => "jpeg"@,
            PJWG::WebP => "webp"@,
            PJWG::GIF => "gif"@,
        }
    }

    /// The format's file extension.
    pub fn as_ref(&self) -> (s: &'static str)
        ensures
            s@ == self.spec_str(),
    {
        match self {
            PJWG::PNG => "png",
            PJWG::JPEG => "jpeg",
            PJWG::WebP => "webp",
            PJWG::GIF => "gif",
        }
    }
}

/// One decimal digit as text.
pub open spec fn spec_digit(d: int) -> Seq<char>
    recommends
        0 <= d <= 9,
{
    if d == 0 {
        "0"@
    } else if d == 1 {
        "1"@
    } else if d == 2 {
        "2"@
    } else if d == 3 {
        "3"@
    } else if d == 4 {
        "4"@
    } else if d == 5 {
        "5"@
    } else if d == 6 {
        "6"@
    } else if d == 7 {
        "7"@
    } else if d == 8 {
        "8"@
    } else {
        "9"@
    }
}

/// The decimal digits of a non-negative integer, most significant first,
/// with no leading zeros except for zero itself.
pub open spec fn spec_decimal(n: int) -> Seq<char>
    recommends
        n >= 0,
    decreases n,
    when n >= 0
    via spec_decimal_decreases
{
    if n < 10 {
        spec_digit(n)
    } else {
        spec_decimal(n / 10) + spec_digit(n % 10)
    }
}

#[via_fn]
proof fn spec_decimal_decreases(n: int) {
    if n >= 10 {
        lemma_div_is_strictly_smaller(n, 10);
        vstd::arithmetic::div_mod::lemma_div_pos_is_pos(n, 10);
    }
}

/// One decimal digit as text, executable.
fn digit_str(d: u64) -> (s: &'static str)
    requires
        d <= 9,
    ensures
        s@ == spec_digit(d as int),
{
    match d {
        0 => "0",
        1 => "1",
        2 => "2",
        3 => "3",
        4 => "4",
        5 => "5",
        6 => "6",
        7 => "7",
        8 => "8",
        _ => "9",
    }
}

/// Writes a number in decimal.
pub fn u64_to_decimal(n: u64) -> (s: String)
    ensures
        s@ == spec_decimal(n as int),
{
    // the digits, least significant first
    let mut digits: Vec<u64> = Vec::new();
    let mut m = n;
    loop
        invariant_except_break
            digits@.len() > 0 ==> ({
                let rev = Seq::new(digits@.len(), |i: int| digits@[digits@.len() - 1 - i]);
                &&& (forall|i: int| 0 <= i < digits@.len() ==> digits@[i] <= 9)
                &&& spec_decimal(n as int) == (if m > 0 {
                    spec_decimal(m as int) + spec_flatten_digits(rev)
                } else {
                    spec_flatten_digits(rev)
                })
            }),
            digits@.len() == 0 ==> m == n,
            digits@.len() > 0 ==> m > 0,
            m <= n,
        ensures
            digits@.len() > 0,
            forall|i: int| 0 <= i < digits@.len() ==> digits@[i] <= 9,
            spec_decimal(n as int) == spec_flatten_digits(
                Seq::new(digits@.len(), |i: int| digits@[digits@.len() - 1 - i]),
            ),
        decreases m,
    {
        let d = m % 10;
        let next = m / 10;
        proof {
            lemma_mod_division_less_than_divisor(m as int, 10);
            lemma_fundamental_div_mod(m as int, 10);
            if m >= 10 {
                lemma_div_is_strictly_smaller(m as int, 10);
            }
            lemma_decimal_step(n as int, m as int, digits@);
        }
        digits.push(d);
        m = next;
        if m == 0 {
            break ;
        }
    }
    // emit most significant first
    let mut s = String::new();
    let count = digits.len();
    let mut i: usize = 0;
    while i < count
        invariant
            0 <= i <= count,
            count == digits@.len(),
            forall|k: int| 0 <= k < digits@.len() ==> digits@[k] <= 9,
            s@ == spec_flatten_digits(
                Seq::new(i as nat, |k: int| digits@[digits@.len() - 1 - k]),
            ),
        decreases count - i,
    {
        let d = digits[count - 1 - i];
        s.append(digit_str(d));
        proof {
            let prev = Seq::new(i as nat, |k: int| digits@[digits@.len() - 1 - k]);
            let cur = Seq::new(i as nat + 1, |k: int| digits@[digits@.len() - 1 - k]);
            assert(cur.drop_last() =~= prev);
            assert(cur.last() == digits@[digits@.len() - 1 - i as int]);
        }
        i = i + 1;
    }
    proof {
        assert(Seq::new(count as nat, |k: int| digits@[digits@.len() - 1 - k]) =~= Seq::new(
            digits@.len(),
            |k: int| digits@[digits@.len() - 1 - k],
        ));
    }
    s
}

/// The concatenated text of a digit sequence, most significant first.
pub open spec fn spec_flatten_digits(rev: Seq<u64>) -> Seq<char>
    decreases rev.len(),
{
    if rev.len() == 0 {
        Seq::empty()
    } else {
        spec_flatten_digits(rev.drop_last()) + spec_digit(rev.last() as int)
    }
}

/// One more extracted digit keeps the bookkeeping of `u64_to_decimal`:
/// with `d = m % 10` pushed onto `digits` and `m` stepping to `m / 10`,
/// the decimal text of `n` still splits into the unprocessed prefix and
/// the flattened digits.
proof fn lemma_decimal_step(n: int, m: int, digits: Seq<u64>)
    requires
        0 <= m <= n,
        forall|i: int| 0 <= i < digits.len() ==> digits[i] <= 9,
        digits.len() == 0 ==> m == n,
        digits.len() > 0 ==> spec_decimal(n) == (if m > 0 {
            spec_decimal(m) + spec_flatten_digits(Seq::new(digits.len(), |i: int| digits[digits.len() - 1 - i]))
        } else {
            spec_flatten_digits(Seq::new(digits.len(), |i: int| digits[digits.len() - 1 - i]))
        }),
        m > 0 || digits.len() == 0,
    ensures
        ({
            let digits1 = digits.push((m % 10) as u64);
            let rev1 = Seq::new(digits1.len(), |i: int| digits1[digits1.len() - 1 - i]);
            spec_decimal(n) == (if m / 10 > 0 {
                spec_decimal(m / 10) + spec_flatten_digits(rev1)
            } else {
                spec_flatten_digits(rev1)
            })
        }),
{
    lemma_mod_division_less_than_divisor(m, 10);
    lemma_fundamental_div_mod(m, 10);
    let d = (m % 10) as u64;
    let digits1 = digits.push(d);
    let rev = Seq::new(digits.len(), |i: int| digits[digits.len() - 1 - i]);
    let rev1 = Seq::new(digits1.len(), |i: int| digits1[digits1.len() - 1 - i]);
    assert(rev1.drop_first() =~= rev) by {
        assert forall|i: int| 0 <= i < rev.len() implies rev1.drop_first()[i] == rev[i] by {
            assert(rev1[i + 1] == digits1[digits1.len() - 1 - (i + 1)]);
            assert(digits1[digits.len() - 1 - i] == digits[digits.len() - 1 - i]);
        }
    };
    assert(rev1[0] == d);
    assert(rev1 =~= seq![d] + rev);
    lemma_flatten_prepend(d, rev);
    if m < 10 {
        // the digit just pushed is the most significant one
        assert(m / 10 == 0) by {
            vstd::arithmetic::div_mod::lemma_basic_div(m, 10);
        };
        assert(spec_decimal(m) == spec_digit(m));
        assert(m % 10 == m) by {
            vstd::arithmetic::div_mod::lemma_small_mod(m as nat, 10);
        };
        assert(spec_flatten_digits(rev1) == spec_digit(m) + spec_flatten_digits(rev));
        if digits.len() == 0 {
            assert(spec_flatten_digits(rev) =~= Seq::<char>::empty());
            assert(spec_decimal(n) =~= spec_digit(m) + Seq::<char>::empty());
        }
    } else {
        assert(spec_decimal(m) == spec_decimal(m / 10) + spec_digit(m % 10));
        if digits.len() == 0 {
            assert(spec_flatten_digits(rev) =~= Seq::<char>::empty());
            assert(spec_flatten_digits(rev1) == spec_digit((d) as int) + spec_flatten_digits(rev));
            assert(spec_decimal(n) =~= spec_decimal(m / 10) + spec_flatten_digits(rev1));
        } else {
            assert(spec_decimal(n) =~= spec_decimal(m / 10) + spec_flatten_digits(rev1));
        }
    }
}

/// Flattening digits with one more in front prepends that digit's text.
proof fn lemma_flatten_prepend(d: u64, rev: Seq<u64>)
    ensures
        spec_flatten_digits(seq![d] + rev) == spec_digit(d as int) + spec_flatten_digits(rev),
    decreases rev.len(),
{
    let whole = seq![d] + rev;
    if rev.len() == 0 {
        assert(whole.len() == 1);
        assert(whole.drop_last() =~= Seq::<u64>::empty());
        assert(whole.last() == d);
        assert(spec_flatten_digits(whole) == spec_flatten_digits(Seq::<u64>::empty()) + spec_digit(
            d as int,
        ));
        assert(spec_flatten_digits(whole) =~= spec_digit(d as int) + spec_flatten_digits(rev));
    } else {
        assert(whole.drop_last() =~= seq![d] + rev.drop_last());
        assert(whole.last() == rev.last());
        lemma_flatten_prepend(d, rev.drop_last());
        assert(spec_flatten_digits(whole) == (spec_digit(d as int) + spec_flatten_digits(
            rev.drop_last(),
        )) + spec_digit(rev.last() as int));
        assert((spec_digit(d as int) + spec_flatten_digits(rev.drop_last())) + spec_digit(
            rev.last() as int,
        ) =~= spec_digit(d as int) + (spec_flatten_digits(rev.drop_last()) + spec_digit(
            rev.last() as int,
        )));
    }
}

/// The CDN URL of the default avatar: the discriminator modulo five picks
/// one of the five stock images.
pub open spec fn spec_default_user_avatar(discriminator: u16) -> Seq<char> {
    "https://cdn.discordapp.com/embed/avatars/"@ + spec_decimal((discriminator % 5) as int)
        + ".png"@
}

/// URL of the default avatar a user without one of their own shows: the
/// discriminator modulo five picks one of the five stock images.
pub fn get_default_user_avatar(discriminator: u16) -> (s: String)
    ensures
        s@ == spec_default_user_avatar(discriminator),
{
    let mut s = String::from_str("https://cdn.discordapp.com/embed/avatars/");
    s.append(u64_to_decimal((discriminator % 5) as u64).as_str());
    s.append(".png");
    s
}

/// The CDN URL of a user's own avatar, by user id and avatar hash.
pub open spec fn spec_user_avatar(user_id: u64, user_avatar: Seq<char>, format: PJWG) -> Seq<char> {
    "https://cdn.discordapp.com/avatars/"@ + spec_decimal(user_id as int) + "/"@ + user_avatar
        + "."@ + format.spec_str()
}

/// URL of a user's own avatar, by user id and avatar hash.
pub fn get_user_avatar(user_id: u64, user_avatar: &str, format: PJWG) -> (s: String)
    ensures
        s@ == spec_user_avatar(user_id, user_avatar@, format),
{
    let mut s = String::from_str("https://cdn.discordapp.com/avatars/");
    s.append(u64_to_decimal(user_id).as_str());
    s.append("/");
    s.append(user_avatar);
    s.append(".");
    s.append(format.as_ref());
    s
}

/// The CDN URL of a member's per-guild avatar, by guild id, user id and
/// avatar hash.
pub open spec fn spec_guild_member_avatar(
    guild_id: u64,
    user_id: u64,
    member_avatar: Seq<char>,
    format: PJWG,
) -> Seq<char> {
    "https://cdn.discordapp.com/guilds/"@ + spec_decimal(guild_id as int) + "/users/"@
        + spec_decimal(user_id as int) + "/avatars/"@ + member_avatar + "."@ + format.spec_str()
}

/// URL of a member's avatar specific to one guild, by guild id, user id
/// and avatar hash.
pub fn get_guild_member_avatar(
    guild_id: u64,
    user_id: u64,
    member_avatar: &str,
    format: PJWG,
) -> (s: String)
    ensures
        s@ == spec_guild_member_avatar(guild_id, user_id, member_avatar@, format),
{
    let mut s = String::from_str("https://cdn.discordapp.com/guilds/");
    s.append(u64_to_decimal(guild_id).as_str());
    s.append("/users/");
    s.append(u64_to_decimal(user_id).as_str());
    s.append("/avatars/");
    s.append(member_avatar);
    s.append(".");
    s.append(format.as_ref());
    s
}

} // verus!
