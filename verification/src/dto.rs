//! The plain-value settings document exchanged with the host, and the
//! verified conversions on it: parsing the `HH:MM` reset time, mapping the
//! document to core `Settings`, and naming break kinds.

use vstd::prelude::*;
use vstd::string::StrSliceExecFns;

use crate::config::{
    BlockLevel, BreakTimerSettings, DailyLimitSettings, NotificationSettings, Settings,
    StartupSettings,
};
use crate::text::str_eq;
use crate::timer::BreakKind;

verus! {

/// A value from the host the core rejects, with the offending text.
#[derive(Clone, Debug, PartialEq, Eq)]
pub enum ParseError {
    InvalidResetTime(String),
    InvalidBreakKind(String),
}

/// The flat settings document as the host stores and edits it.
#[derive(Clone, Debug, PartialEq, Eq)]
pub struct SettingsDto {
    pub micro_interval_seconds: u64,
    pub micro_duration_seconds: u64,
    pub micro_snooze_seconds: u64,
    pub rest_interval_seconds: u64,
    pub rest_duration_seconds: u64,
    pub rest_snooze_seconds: u64,
    pub daily_limit_seconds: u64,
    pub daily_limit_snooze_seconds: u64,
    pub daily_reset_time: String,
    pub block_level: String,
    pub desktop_notifications: bool,
    pub overlay_notifications: bool,
    pub sound_notifications: bool,
    pub sound_theme: String,
    pub startup_xdg: bool,
    pub startup_systemd_user: bool,
    pub active_profile_id: String,
}

/// A decimal digit.
pub open spec fn is_digit(c: char) -> bool {
    48 <= c as u32 <= 57
}

/// The value of one decimal digit.
pub open spec fn digit_val(c: char) -> int {
    c as u32 - 48
}

/// Every character is a decimal digit.
pub open spec fn all_digits(s: Seq<char>) -> bool {
    forall|i: int| 0 <= i < s.len() ==> is_digit(#[trigger] s[i])
}

/// The number the digit string denotes, most significant digit first.
pub open spec fn digits_val(s: Seq<char>) -> int
    decreases s.len(),
{
    if s.len() == 0 {
        0
    } else {
        digits_val(s.drop_last()) * 10 + digit_val(s.last())
    }
}

/// The digits of a numeral: everything after an optional leading plus sign.
pub open spec fn numeral_body(s: Seq<char>) -> Seq<char> {
    if s.len() > 0 && s[0] == '+' {
        s.drop_first()
    } else {
        s
    }
}

/// A numeral a `u8` parse accepts: an optional plus sign, then one or more
/// digits denoting a value below 256.
pub open spec fn is_u8_numeral(s: Seq<char>) -> bool {
    &&& numeral_body(s).len() > 0
    &&& all_digits(numeral_body(s))
    &&& digits_val(numeral_body(s)) < 256
}

/// The value of a `u8` numeral.
pub open spec fn numeral_val(s: Seq<char>) -> int {
    digits_val(numeral_body(s))
}

/// How many colons the text holds.
pub open spec fn colon_count(s: Seq<char>) -> int
    decreases s.len(),
{
    if s.len() == 0 {
        0
    } else {
        colon_count(s.drop_last()) + (if s.last() == ':' {
            1int
        } else {
            0int
        })
    }
}

/// The index of the first colon; the length where there is none.
pub open spec fn first_colon(s: Seq<char>) -> int
    decreases s.len(),
{
    if s.len() == 0 {
        0
    } else if s[0] == ':' {
        0
    } else {
        1 + first_colon(s.drop_first())
    }
}

/// A well-formed reset time: one colon, a `u8` numeral on either side, hour
/// at most 23 and minute at most 59.
pub open spec fn valid_reset_time(s: Seq<char>) -> bool {
    let k = first_colon(s);
    &&& colon_count(s) == 1
    &&& is_u8_numeral(s.subrange(0, k))
    &&& is_u8_numeral(s.subrange(k + 1, s.len() as int))
    &&& numeral_val(s.subrange(0, k)) <= 23
    &&& numeral_val(s.subrange(k + 1, s.len() as int)) <= 59
}

/// The hour a well-formed reset time denotes.
pub open spec fn spec_reset_hour(s: Seq<char>) -> int {
    numeral_val(s.subrange(0, first_colon(s)))
}

/// The minute a well-formed reset time denotes.
pub open spec fn spec_reset_minute(s: Seq<char>) -> int {
    numeral_val(s.subrange(first_colon(s) + 1, s.len() as int))
}

/// The enforcement level a document names; anything unrecognised falls back
/// to medium.
pub open spec fn spec_block_level(s: Seq<char>) -> BlockLevel {
    if s == "soft"@ {
        BlockLevel::Soft
    } else if s == "medium"@ {
        BlockLevel::Medium
    } else if s == "strict"@ {
        BlockLevel::Strict
    } else {
        BlockLevel::Medium
    }
}

/// A digit string denotes a non-negative number.
proof fn lemma_digits_val_nonneg(s: Seq<char>)
    requires
        all_digits(s),
    ensures
        digits_val(s) >= 0,
    decreases s.len(),
{
    if s.len() > 0 {
        assert forall|i: int| 0 <= i < s.drop_last().len() implies is_digit(
            #[trigger] s.drop_last()[i],
        ) by {
            assert(s.drop_last()[i] == s[i]);
        }
        lemma_digits_val_nonneg(s.drop_last());
        assert(is_digit(s[s.len() - 1]));
    }
}

/// A prefix of a digit string never denotes more than the whole.
proof fn lemma_digits_val_prefix_le(s: Seq<char>, k: int)
    requires
        all_digits(s),
        0 <= k <= s.len(),
    ensures
        digits_val(s.subrange(0, k)) <= digits_val(s),
    decreases s.len() - k,
{
    if k == s.len() {
        assert(s.subrange(0, k) =~= s);
    } else {
        lemma_digits_val_prefix_le(s, k + 1);
        let a = s.subrange(0, k);
        let b = s.subrange(0, k + 1);
        assert(b.drop_last() =~= a);
        assert(b.last() == s[k]);
        assert forall|i: int| 0 <= i < a.len() implies is_digit(#[trigger] a[i]) by {
            assert(a[i] == s[i]);
        }
        lemma_digits_val_nonneg(a);
        assert(is_digit(s[k]));
    }
}

/// The first colon of the text stands at `k` when `k` holds a colon and
/// nothing before it does.
proof fn lemma_first_colon_at(s: Seq<char>, k: int)
    requires
        0 <= k < s.len(),
        s[k] == ':',
        forall|j: int| 0 <= j < k ==> #[trigger] s[j] != ':',
    ensures
        first_colon(s) == k,
    decreases k,
{
    if k > 0 {
        assert forall|j: int| 0 <= j < k - 1 implies #[trigger] s.drop_first()[j] != ':' by {
            assert(s.drop_first()[j] == s[j + 1]);
        }
        assert(s.drop_first()[k - 1] == s[k]);
        lemma_first_colon_at(s.drop_first(), k - 1);
    }
}

/// Parse a `u8` numeral: an optional plus sign, then decimal digits.
fn parse_u8(s: &str) -> (r: Option<u8>)
    ensures
        is_u8_numeral(s@) ==> r == Some(numeral_val(s@) as u8),
        !is_u8_numeral(s@) ==> r is None,
{
    let n = s.unicode_len();
    let mut start: usize = 0;
    if n > 0 && s.get_char(0) == '+' {
        start = 1;
    }
    let ghost body = numeral_body(s@);
    proof {
        assert(body =~= s@.subrange(start as int, n as int));
    }
    if start >= n {
        return None;
    }
    let mut acc: u32 = 0;
    let mut i: usize = start;
    while i < n
        invariant
            start <= i <= n,
            n == s@.len(),
            body == s@.subrange(start as int, n as int),
            body == numeral_body(s@),
            acc < 256,
            all_digits(s@.subrange(start as int, i as int)),
            acc == digits_val(s@.subrange(start as int, i as int)),
        decreases n - i,
    {
        let c = s.get_char(i);
        let cu = c as u32;
        if cu < 48 || cu > 57 {
            proof {
                assert(body[i - start] == s@[i as int]);
            }
            return None;
        }
        let d: u32 = cu - 48;
        proof {
            assert(s@.subrange(start as int, i as int + 1).drop_last() =~= s@.subrange(
                start as int,
                i as int,
            ));
            assert(s@.subrange(start as int, i as int + 1).last() == s@[i as int]);
        }
        let next: u32 = acc * 10 + d;
        if next > 255 {
            proof {
                if is_u8_numeral(s@) {
                    lemma_digits_val_prefix_le(body, i as int + 1 - start);
                    assert(body.subrange(0, i as int + 1 - start) =~= s@.subrange(
                        start as int,
                        i as int + 1,
                    ));
                }
            }
            return None;
        }
        proof {
            let ext = s@.subrange(start as int, i as int + 1);
            assert forall|j: int| 0 <= j < ext.len() implies is_digit(#[trigger] ext[j]) by {
                if j < i - start {
                    assert(ext[j] == s@.subrange(start as int, i as int)[j]);
                } else {
                    assert(ext[j] == s@[i as int]);
                }
            }
        }
        acc = next;
        i = i + 1;
    }
    proof {
        assert(s@.subrange(start as int, n as int) =~= body);
    }
    Some(acc as u8)
}

/// A single decimal digit as text.
fn digit_str(d: u8) -> (r: &'static str)
    requires
        d <= 9,
    ensures
        r@.len() == 1,
        is_digit(r@[0]),
        digit_val(r@[0]) == d,
{
    proof {
        reveal_strlit("0");
        reveal_strlit("1");
        reveal_strlit("2");
        reveal_strlit("3");
        reveal_strlit("4");
        reveal_strlit("5");
        reveal_strlit("6");
        reveal_strlit("7");
        reveal_strlit("8");
        reveal_strlit("9");
    }
    match d {
        0 => "0",
        1 => "1",
        2 => "2",
        3 => "3",
        4 => "4",
        5 => "5",
        6 => "6",
        7 => "7",
        8 => "8",
        _ => "9",
    }
}

/// A five-character text of two digits, a colon and two digits is a valid
/// reset time denoting the numbers its digit pairs spell.
proof fn lemma_hhmm_valid(s: Seq<char>, h: int, m: int)
    requires
        s.len() == 5,
        is_digit(s[0]),
        is_digit(s[1]),
        s[2] == ':',
        is_digit(s[3]),
        is_digit(s[4]),
        digit_val(s[0]) * 10 + digit_val(s[1]) == h,
        digit_val(s[3]) * 10 + digit_val(s[4]) == m,
        0 <= h <= 23,
        0 <= m <= 59,
    ensures
        valid_reset_time(s),
        spec_reset_hour(s) == h,
        spec_reset_minute(s) == m,
{
    assert(s[0] != ':' && s[1] != ':' && s[3] != ':' && s[4] != ':');

    // The first colon stands at index 2.
    let s1 = s.drop_first();
    let s2 = s1.drop_first();
    assert(s1[0] == s[1] && s2[0] == s[2]);
    assert(first_colon(s2) == 0);
    assert(first_colon(s1) == 1);
    assert(first_colon(s) == 2);

    // There is exactly that one colon.
    let p4 = s.drop_last();
    let p3 = p4.drop_last();
    let p2 = p3.drop_last();
    let p1 = p2.drop_last();
    let p0 = p1.drop_last();
    assert(p4.last() == s[3] && p3.last() == s[2] && p2.last() == s[1] && p1.last() == s[0]);
    assert(p0.len() == 0);
    assert(colon_count(p0) == 0);
    assert(colon_count(p1) == 0);
    assert(colon_count(p2) == 0);
    assert(colon_count(p3) == 1);
    assert(colon_count(p4) == 1);
    assert(colon_count(s) == 1);

    // The hour digits.
    let hh = s.subrange(0, 2);
    let h1 = s.subrange(0, 1);
    assert(digits_val(Seq::<char>::empty()) == 0);
    assert(h1.drop_last() =~= Seq::<char>::empty());
    assert(h1.last() == s[0]);
    assert(digits_val(h1) == digit_val(s[0]));
    assert(hh.drop_last() =~= h1);
    assert(hh.last() == s[1]);
    assert(digits_val(hh) == h);
    assert(hh[0] != '+');
    assert(numeral_body(hh) == hh);

    // The minute digits.
    let mm = s.subrange(3, 5);
    let m1 = s.subrange(3, 4);
    assert(m1.drop_last() =~= Seq::<char>::empty());
    assert(m1.last() == s[3]);
    assert(digits_val(m1) == digit_val(s[3]));
    assert(mm.drop_last() =~= m1);
    assert(mm.last() == s[4]);
    assert(digits_val(mm) == m);
    assert(mm[0] != '+');
    assert(numeral_body(mm) == mm);
}

/// Render a reset time as `HH:MM`, the form `parse_reset_time` reads back:
/// formatting then parsing returns the hour and minute unchanged.
pub fn format_reset_time(hour: u8, minute: u8) -> (r: String)
    requires
        hour <= 23,
        minute <= 59,
    ensures
        valid_reset_time(r@),
        spec_reset_hour(r@) == hour,
        spec_reset_minute(r@) == minute,
{
    proof {
        reveal_strlit(":");
    }
    let mut out = String::new();
    out.append(digit_str(hour / 10));
    out.append(digit_str(hour % 10));
    out.append(":");
    out.append(digit_str(minute / 10));
    out.append(digit_str(minute % 10));
    proof {
        lemma_hhmm_valid(out@, hour as int, minute as int);
    }
    out
}

/// Parse a reset time of the form `HH:MM` into local hour and minute.
pub fn parse_reset_time(value: &str) -> (r: Result<(u8, u8), ParseError>)
    ensures
        valid_reset_time(value@) ==> r == Ok::<(u8, u8), ParseError>(
            (spec_reset_hour(value@) as u8, spec_reset_minute(value@) as u8),
        ),
        !valid_reset_time(value@) ==> (r matches Err(e) && e matches ParseError::InvalidResetTime(
            t,
        ) && t@ == value@),
{
    let n = value.unicode_len();
    let mut count: u64 = 0;
    let mut found = false;
    let mut first: usize = 0;
    let mut i: usize = 0;
    while i < n
        invariant
            i <= n,
            n == value@.len(),
            count == colon_count(value@.subrange(0, i as int)),
            count <= i,
            found ==> first < i && value@[first as int] == ':' && (forall|j: int|
                0 <= j < first ==> #[trigger] value@[j] != ':'),
            !found ==> count == 0 && (forall|j: int| 0 <= j < i ==> #[trigger] value@[j] != ':'),
        decreases n - i,
    {
        let c = value.get_char(i);
        proof {
            assert(value@.subrange(0, i as int + 1).drop_last() =~= value@.subrange(0, i as int));
            assert(value@.subrange(0, i as int + 1).last() == value@[i as int]);
        }
        if c == ':' {
            count = count + 1;
            if !found {
                found = true;
                first = i;
            }
        }
        i = i + 1;
    }
    proof {
        assert(value@.subrange(0, n as int) =~= value@);
    }
    if count != 1 {
        return Err(ParseError::InvalidResetTime(value.to_owned()));
    }
    proof {
        lemma_first_colon_at(value@, first as int);
        if valid_reset_time(value@) {
            lemma_digits_val_nonneg(numeral_body(value@.subrange(0, first as int)));
            lemma_digits_val_nonneg(numeral_body(value@.subrange(first as int + 1, n as int)));
        }
    }
    let hpart = value.substring_char(0, first);
    let mpart = value.substring_char(first + 1, n);
    let hour = parse_u8(hpart);
    let minute = parse_u8(mpart);
    match (hour, minute) {
        (Some(h), Some(m)) => {
            if h <= 23 && m <= 59 {
                Ok((h, m))
            } else {
                Err(ParseError::InvalidResetTime(value.to_owned()))
            }
        },
        _ => Err(ParseError::InvalidResetTime(value.to_owned())),
    }
}

/// Map the host's settings document to core `Settings`; the only value that
/// can be rejected is the reset time.
pub fn settings_to_core(dto: &SettingsDto) -> (r: Result<Settings, ParseError>)
    ensures
        r is Ok <==> valid_reset_time(dto.daily_reset_time@),
        r matches Ok(s) ==> ({
            &&& s.micro == (BreakTimerSettings {
                interval_seconds: dto.micro_interval_seconds,
                duration_seconds: dto.micro_duration_seconds,
                snooze_seconds: dto.micro_snooze_seconds,
                enabled: true,
            })
            &&& s.rest == (BreakTimerSettings {
                interval_seconds: dto.rest_interval_seconds,
                duration_seconds: dto.rest_duration_seconds,
                snooze_seconds: dto.rest_snooze_seconds,
                enabled: true,
            })
            &&& s.daily_limit.limit_seconds == dto.daily_limit_seconds
            &&& s.daily_limit.snooze_seconds == dto.daily_limit_snooze_seconds
            &&& s.daily_limit.reset_hour_local == spec_reset_hour(dto.daily_reset_time@) as u8
            &&& s.daily_limit.reset_minute_local == spec_reset_minute(dto.daily_reset_time@) as u8
            &&& s.daily_limit.enabled
            &&& s.block_level == spec_block_level(dto.block_level@)
            &&& s.notifications.desktop_enabled == dto.desktop_notifications
            &&& s.notifications.overlay_enabled == dto.overlay_notifications
            &&& s.notifications.sound_enabled == dto.sound_notifications
            &&& s.notifications.sound_theme@ == dto.sound_theme@
            &&& s.startup.xdg_autostart_enabled == dto.startup_xdg
            &&& s.startup.systemd_user_enabled == dto.startup_systemd_user
            &&& s.active_profile_id@ == dto.active_profile_id@
        }),
        r matches Err(e) ==> (e matches ParseError::InvalidResetTime(t) && t@
            == dto.daily_reset_time@),
{
    let block_level = if str_eq(dto.block_level.as_str(), "soft") {
        BlockLevel::Soft
    } else if str_eq(dto.block_level.as_str(), "medium") {
        BlockLevel::Medium
    } else if str_eq(dto.block_level.as_str(), "strict") {
        BlockLevel::Strict
    } else {
        BlockLevel::Medium
    };

    match parse_reset_time(dto.daily_reset_time.as_str()) {
        Ok((reset_hour, reset_minute)) => Ok(
            Settings {
                micro: BreakTimerSettings {
                    interval_seconds: dto.micro_interval_seconds,
                    duration_seconds: dto.micro_duration_seconds,
                    snooze_seconds: dto.micro_snooze_seconds,
                    enabled: true,
                },
                rest: BreakTimerSettings {
                    interval_seconds: dto.rest_interval_seconds,
                    duration_seconds: dto.rest_duration_seconds,
                    snooze_seconds: dto.rest_snooze_seconds,
                    enabled: true,
                },
                daily_limit: DailyLimitSettings {
                    limit_seconds: dto.daily_limit_seconds,
                    snooze_seconds: dto.daily_limit_snooze_seconds,
                    reset_hour_local: reset_hour,
                    reset_minute_local: reset_minute,
                    enabled: true,
                },
                block_level,
                notifications: NotificationSettings {
                    desktop_enabled: dto.desktop_notifications,
                    overlay_enabled: dto.overlay_notifications,
                    sound_enabled: dto.sound_notifications,
                    sound_theme: dto.sound_theme.clone(),
                },
                startup: StartupSettings {
                    xdg_autostart_enabled: dto.startup_xdg,
                    systemd_user_enabled: dto.startup_systemd_user,
                },
                active_profile_id: dto.active_profile_id.clone(),
            },
        ),
        Err(e) => Err(e),
    }
}

/// The identifier under which a break kind is named to the host.
pub fn break_kind_to_string(kind: BreakKind) -> (r: String)
    ensures
        kind is Micro ==> r@ == "micro"@,
        kind is Rest ==> r@ == "rest"@,
        kind is DailyLimit ==> r@ == "daily_limit"@,
{
    match kind {
        BreakKind::Micro => "micro".to_owned(),
        BreakKind::Rest => "rest".to_owned(),
        BreakKind::DailyLimit => "daily_limit".to_owned(),
    }
}

/// The break kind a host identifier names.
pub fn parse_break_kind(value: &str) -> (r: Result<BreakKind, ParseError>)
    ensures
        value@ == "micro"@ ==> r == Ok::<BreakKind, ParseError>(BreakKind::Micro),
        value@ == "rest"@ ==> r == Ok::<BreakKind, ParseError>(BreakKind::Rest),
        value@ == "daily_limit"@ ==> r == Ok::<BreakKind, ParseError>(BreakKind::DailyLimit),
        value@ != "micro"@ && value@ != "rest"@ && value@ != "daily_limit"@ ==> (r matches Err(e)
            && e matches ParseError::InvalidBreakKind(t) && t@ == value@),
{
    proof {
        reveal_strlit("micro");
        reveal_strlit("rest");
        reveal_strlit("daily_limit");
        assert("micro"@.len() == 5);
        assert("rest"@.len() == 4);
        assert("daily_limit"@.len() == 11);
    }
    if str_eq(value, "micro") {
        Ok(BreakKind::Micro)
    } else if str_eq(value, "rest") {
        Ok(BreakKind::Rest)
    } else if str_eq(value, "daily_limit") {
        Ok(BreakKind::DailyLimit)
    } else {
        Err(ParseError::InvalidBreakKind(value.to_owned()))
    }
}

} // verus!
