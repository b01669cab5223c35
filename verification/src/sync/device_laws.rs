//! What holds of lists of devices, of dates, and of texts as JSON has them.

use vstd::prelude::*;

use crate::ids::hex_digit;
use crate::sync::clock::{
    day_number, days_before_month, days_before_year, is_date, leap, month_len, stamp, year_len,
};
use crate::sync::endpoint::{route_of, FORGETTY_PAIRING_ALPN, Route};
use crate::sync::identity::data_path;
use crate::sync::pairing::{admission, device_name};
use crate::sync::qr::{json_char, json_chars, json_string_of};
use crate::sync::registry::{devices_seen, devices_without, DeviceModel};
use crate::text::{base_name, path_in, zero_filled};
use crate::text_laws::{
    is_plain_name, lacks, law_decimal_stands_for_the_number, law_path_of_a_file,
    law_zero_filled_stands_for_the_number, number_of,
};

verus! {

// ---------------------------------------------------------------------------
// Devices
// ---------------------------------------------------------------------------
/// The list without a device is what is left of its parts, one behind the other: of one
/// entry nothing where it is of that device, and the entry else.
pub proof fn law_list_without_a_device(
    a: Seq<DeviceModel>,
    b: Seq<DeviceModel>,
    one: DeviceModel,
    id: Seq<char>,
)
    ensures
        devices_without(a + b, id) == devices_without(a, id) + devices_without(b, id),
        one.device_id == id ==> devices_without(seq![one], id).len() == 0,
        one.device_id != id ==> devices_without(seq![one], id) == seq![one],
    decreases b.len(),
{
    reveal_with_fuel(devices_without, 2);
    assert(seq![one].drop_last() =~= Seq::empty());
    assert(seq![one].last() == one);
    assert(Seq::empty().push(one) =~= seq![one]);
    if b.len() == 0 {
        assert(a + b =~= a);
        assert(devices_without(a, id) + devices_without(b, id) =~= devices_without(a, id));
    } else {
        assert((a + b).drop_last() =~= a + b.drop_last());
        law_list_without_a_device(a, b.drop_last(), one, id);
        if b.last().device_id != id {
            assert(devices_without(a, id) + devices_without(b, id) =~= (devices_without(a, id)
                + devices_without(b.drop_last(), id)).push(b.last()));
        }
    }
}

/// Whether an entry is the first of a device, from a position on.
pub open spec fn is_first_of(devices: Seq<DeviceModel>, id: Seq<char>, from: int, i: int) -> bool {
    &&& from <= i < devices.len()
    &&& devices[i].device_id == id
    &&& forall|j: int| from <= j < i ==> (#[trigger] devices[j]).device_id != id
}

/// Of a device that was seen the first entry has the moment; nothing else of that entry
/// changes, and no other entry does.
pub proof fn law_first_entry_is_marked(
    devices: Seq<DeviceModel>,
    id: Seq<char>,
    now: Seq<char>,
    from: int,
)
    requires
        0 <= from <= devices.len(),
    ensures
        devices_seen(devices, id, now, from).len() == devices.len(),
        forall|i: int|
            0 <= i < devices.len() ==> #[trigger] devices_seen(devices, id, now, from)[i] == (
            DeviceModel {
                last_seen: if is_first_of(devices, id, from, i) {
                    Some(now)
                } else {
                    devices[i].last_seen
                },
                ..devices[i]
            }),
    decreases devices.len() - from,
{
    if from < devices.len() && devices[from].device_id != id {
        law_first_entry_is_marked(devices, id, now, from + 1);
        assert forall|i: int| #[trigger] is_first_of(devices, id, from, i) <==> is_first_of(
            devices,
            id,
            from + 1,
            i,
        ) by {}
    }
}

/// A device is let in where it is known; an unknown one is paired while pairing is open,
/// and turned away while it is not.
pub proof fn law_who_is_let_in(devices: Seq<DeviceModel>, id: Seq<char>, allow: bool)
    ensures
        admission(devices, id, allow) is Known <==> exists|i: int|
            0 <= i < devices.len() && (#[trigger] devices[i]).device_id == id,
        admission(devices, id, false) is Pair ==> false,
        admission(devices, id, true) is Reject ==> false,
        admission(devices, id, allow) is Known ==> admission(devices, id, !allow) is Known,
{
}

/// A device without a name is named by the moment; one with a name keeps it.
pub proof fn law_name_of_a_device(given: Option<Seq<char>>, secs: nat)
    ensures
        given is Some ==> device_name(given, secs) == given->0,
        given is None ==> device_name(given, secs).len() > 7 && number_of(
            device_name(given, secs).skip(7),
        ) == secs && device_name(given, secs).take(7) == "device-"@,
{
    law_decimal_stands_for_the_number(secs);
    reveal_strlit("device-");
    if given is None {
        let name = device_name(given, secs);
        assert(name.skip(7) =~= crate::text::decimal(secs));
        assert(name.take(7) =~= "device-"@);
    }
}

/// A connection goes to pairing by its own name, else to the first handler that was
/// registered under the name it gives, and is not known where there is none.
pub proof fn law_where_a_connection_goes(names: Seq<Seq<u8>>, alpn: Seq<u8>)
    requires
        names.len() <= usize::MAX,
    ensures
        route_of(names, alpn) is Pairing <==> alpn == vstd::utf8::encode_utf8(
            FORGETTY_PAIRING_ALPN@,
        ),
        route_of(names, alpn) matches Route::Handler(i) ==> i < names.len() && names[i as int]
            == alpn && forall|j: int| 0 <= j < i ==> #[trigger] names[j] != alpn,
        route_of(names, alpn) is Unknown ==> forall|j: int|
            0 <= j < names.len() ==> #[trigger] names[j] != alpn,
{
    names.index_of_first_ensures(alpn);
    match names.index_of_first(alpn) {
        Some(i) => {},
        None => {
            assert forall|j: int| 0 <= j < names.len() implies #[trigger] names[j] != alpn by {
                if names[j] == alpn {
                    assert(names.contains(alpn));
                }
            }
        },
    }
}

// ---------------------------------------------------------------------------
// Dates
// ---------------------------------------------------------------------------
/// Days are numbered one after the other, over the ends of months and years; the first
/// day of 1970 has number zero.
pub proof fn law_days_follow_each_other(y: nat, m: nat, d: nat)
    requires
        is_date(y, m, d),
    ensures
        day_number(1970, 1, 1) == 0,
        d < month_len(y, m) ==> day_number(y, m, (d + 1) as nat) == day_number(y, m, d) + 1,
        d == month_len(y, m) && m < 12 ==> day_number(y, (m + 1) as nat, 1) == day_number(y, m, d)
            + 1,
        d == 31 && m == 12 ==> day_number((y + 1) as nat, 1, 1) == day_number(y, m, d) + 1,
{
    reveal_with_fuel(days_before_month, 13);
    reveal_with_fuel(days_before_year, 2);
}

/// The months have the days they have, and those of a year are as many as the year has.
/// Every fourth year is a leap year, but of the hundredth ones only every fourth.
pub proof fn law_lengths_of_months_and_years(y: nat, m: nat)
    ensures
        1 <= m <= 12 && m != 2 ==> month_len(y, m) == seq![
            31nat, 0, 31, 30, 31, 30, 31, 31, 30, 31, 30, 31,
        ][m - 1],
        month_len(y, 2) == 28 + (year_len(y) - 365),
        year_len(y) == days_before_month(y, 13),
        year_len(y) == 365 || year_len(y) == 366,
        leap(y) <==> year_len(y) == 366,
        leap(y) ==> y % 4 == 0,
        y % 4 == 0 && y % 100 != 0 ==> leap(y),
        y % 100 == 0 ==> (leap(y) <==> (y / 100) % 4 == 0),
{
    reveal_with_fuel(days_before_month, 13);
}

/// A moment is written as a date, a `T` and a time of day, each number in its place and
/// filled with zeros.
pub proof fn law_moment_is_written_in_its_places(y: nat, m: nat, d: nat, second: nat)
    requires
        y <= 9999,
        m <= 12,
        d <= 31,
        second < 86400,
    ensures
        ({
            let s = stamp(y, m, d, second);
            &&& s.len() == 20
            &&& s[4] == '-' && s[7] == '-' && s[10] == 'T' && s[13] == ':' && s[16] == ':' && s[19]
                == 'Z'
            &&& number_of(s.subrange(0, 4)) == y
            &&& number_of(s.subrange(5, 7)) == m
            &&& number_of(s.subrange(8, 10)) == d
            &&& number_of(s.subrange(11, 13)) * 3600 + number_of(s.subrange(14, 16)) * 60
                + number_of(s.subrange(17, 19)) == second
            &&& number_of(s.subrange(14, 16)) < 60 && number_of(s.subrange(17, 19)) < 60
        }),
{
    let s = stamp(y, m, d, second);
    let h = second / 3600;
    let min = (second % 3600) / 60;
    let sec = second % 60;
    assert(h < 24 && min < 60 && sec < 60);
    assert(h * 3600 + min * 60 + sec == second) by {
        assert(second == (second / 3600) * 3600 + second % 3600);
        assert((second % 3600) == ((second % 3600) / 60) * 60 + (second % 3600) % 60);
        assert((second % 3600) % 60 == second % 60);
    }
    law_zero_filled_stands_for_the_number(y, 4);
    law_zero_filled_stands_for_the_number(m, 2);
    law_zero_filled_stands_for_the_number(d, 2);
    law_zero_filled_stands_for_the_number(h, 2);
    law_zero_filled_stands_for_the_number(min, 2);
    law_zero_filled_stands_for_the_number(sec, 2);
    lemma_digits(y);
    lemma_digits(m);
    lemma_digits(d);
    lemma_digits(h);
    lemma_digits(min);
    lemma_digits(sec);
    reveal_strlit("-");
    reveal_strlit("T");
    reveal_strlit(":");
    reveal_strlit("Z");
    assert(s.subrange(0, 4) =~= zero_filled(y, 4));
    assert(s.subrange(5, 7) =~= zero_filled(m, 2));
    assert(s.subrange(8, 10) =~= zero_filled(d, 2));
    assert(s.subrange(11, 13) =~= zero_filled(h, 2));
    assert(s.subrange(14, 16) =~= zero_filled(min, 2));
    assert(s.subrange(17, 19) =~= zero_filled(sec, 2));
}

proof fn lemma_digits(n: nat)
    ensures
        n < 100 ==> crate::text::decimal(n).len() <= 2,
        n < 10000 ==> crate::text::decimal(n).len() <= 4,
{
    reveal_with_fuel(crate::text::decimal, 5);
}

// ---------------------------------------------------------------------------
// Texts in JSON
// ---------------------------------------------------------------------------
/// A text in JSON is that of its parts, one behind the other, between two quotes. A
/// character stands for itself, or is told by one behind a backslash; no two are told in
/// the same way.
pub proof fn law_text_in_json(a: Seq<char>, b: Seq<char>, c: char, d: char)
    ensures
        json_chars(a + b) == json_chars(a) + json_chars(b),
        json_chars(seq![c]) == json_char(c),
        json_string_of(a) == seq!['"'] + json_chars(a) + seq!['"'],
        c >= ' ' && c != '"' && c != '\\' ==> json_char(c) == seq![c],
        !(c >= ' ' && c != '"' && c != '\\') ==> json_char(c).len() >= 2 && json_char(c)[0] == '\\',
        c == '"' || c == '\\' ==> json_char(c).len() == 2 && json_char(c)[1] == c,
        c == '\n' ==> json_char(c)[1] == 'n',
        c == '\r' ==> json_char(c)[1] == 'r',
        c == '\t' ==> json_char(c)[1] == 't',
        json_char(c) == json_char(d) ==> c == d,
    decreases b.len(),
{
    reveal_with_fuel(json_chars, 2);
    assert(seq![c].drop_last() =~= Seq::empty());
    assert(json_chars(seq![c]) =~= json_char(c));
    lemma_json_char(c);
    lemma_json_char(d);
    if json_char(c) == json_char(d) {
        if json_char(c).len() == 1 {
            assert(json_char(c)[0] == c && json_char(d)[0] == d);
        } else if json_char(c).len() == 2 {
            assert(json_char(c)[1] == json_char(d)[1]);
        } else {
            assert(json_char(c)[4] == json_char(d)[4]);
            assert(json_char(c)[5] == json_char(d)[5]);
        }
    }
    if b.len() == 0 {
        assert(a + b =~= a);
        assert(json_chars(a) + json_chars(b) =~= json_chars(a));
    } else {
        assert((a + b).drop_last() =~= a + b.drop_last());
        law_text_in_json(a, b.drop_last(), c, d);
        assert(json_chars(a) + json_chars(b) =~= json_chars(a) + json_chars(b.drop_last())
            + json_char(b.last()));
    }
}

/// The value of a hexadecimal digit.
pub open spec fn hex_value(c: char) -> int {
    if c <= '9' {
        c as int - 48
    } else {
        c as int - 87
    }
}

proof fn lemma_json_char(c: char)
    ensures
        json_char(c).len() == 1 || json_char(c).len() == 2 || json_char(c).len() == 6,
        json_char(c).len() == 6 ==> c as int == hex_value(json_char(c)[4]) * 16 + hex_value(
            json_char(c)[5],
        ),
        json_char(c).len() == 1 <==> c >= ' ' && c != '"' && c != '\\',
        json_char(c).len() == 2 ==> (c == '"' && json_char(c)[1] == '"') || (c == '\\' && json_char(
            c,
        )[1] == '\\') || (c == '\u{8}' && json_char(c)[1] == 'b') || (c == '\u{c}' && json_char(
            c,
        )[1] == 'f') || (c == '\n' && json_char(c)[1] == 'n') || (c == '\r' && json_char(c)[1]
            == 'r') || (c == '\t' && json_char(c)[1] == 't'),
{
    if json_char(c).len() == 6 {
        lemma_hex((c as int / 16) as u128);
        lemma_hex((c as int % 16) as u128);
    }
}

proof fn lemma_hex(n: u128)
    requires
        n < 16,
    ensures
        hex_value(hex_digit(n)) == n,
{
}

// ---------------------------------------------------------------------------
// Files
// ---------------------------------------------------------------------------
/// A file of the program has its name, in a directory of the program's own, in the
/// directory for data where that is known.
pub proof fn law_file_in_the_directory_for_data(dir: Seq<char>, name: Seq<char>)
    requires
        is_plain_name(name),
        dir.len() > 0,
    ensures
        base_name(data_path(Some(dir), name)) == Some(name),
        base_name(data_path(None, name)) == Some(name),
        data_path(Some(dir), name).take(dir.len() as int) == dir,
        dir.last() != '/' ==> data_path(Some(dir), name) == dir + "/forgetty/"@ + name,
{
    lemma_own_directory();
    lemma_file_in_two_directories(dir, "forgetty"@, name);
    reveal_strlit("~/.local/share");
    lemma_file_in_two_directories("~/.local/share"@, "forgetty"@, name);
}

/// A file in a directory within another one.
#[verifier::spinoff_prover]
proof fn lemma_file_in_two_directories(dir: Seq<char>, own: Seq<char>, name: Seq<char>)
    requires
        is_plain_name(own),
        is_plain_name(name),
        dir.len() > 0,
    ensures
        base_name(path_in(path_in(dir, own), name)) == Some(name),
        path_in(path_in(dir, own), name).take(dir.len() as int) == dir,
        dir.last() != '/' ==> path_in(path_in(dir, own), name) == dir + ("/"@ + own + "/"@) + name,
{
    let inner = path_in(dir, own);
    let path = path_in(inner, name);
    law_path_of_a_file(dir, own);
    law_path_of_a_file(inner, name);
    assert(path.take(dir.len() as int) == dir) by {
        let first = path.take(inner.len() as int);
        assert(first == inner);
        assert(first.take(dir.len() as int) =~= path.take(dir.len() as int));
    }
    if dir.last() != '/' {
        assert(inner == dir + "/"@ + own);
        assert(inner.last() == own.last());
        assert(own[own.len() - 1] != '/');
        assert(path == inner + "/"@ + name);
        lemma_five_parts(dir, "/"@, own, name);
    }
}

proof fn lemma_five_parts(a: Seq<char>, b: Seq<char>, c: Seq<char>, d: Seq<char>)
    ensures
        a + b + c + b + d == a + (b + c + b) + d,
{
    assert(a + b + c + b + d =~= a + (b + c + b) + d);
}

/// The directory of the program's own has a plain name.
#[verifier::spinoff_prover]
proof fn lemma_own_directory()
    ensures
        is_plain_name("forgetty"@),
        "forgetty"@.last() != '/',
        "/forgetty/"@ == "/"@ + "forgetty"@ + "/"@,
{
    reveal_strlit("forgetty");
    reveal_strlit("/");
    reveal_strlit("/forgetty/");
    let own = "forgetty"@;
    assert(own.len() == 8);
    assert(seq!['.'].len() == 1 && seq!['.', '.'].len() == 2);
    assert("/forgetty/"@ =~= "/"@ + own + "/"@);
    assert(lacks(own, '/'));
}

} // verus!
