//! JSON field access for oracle responses, behind trusted wrappers over
//! serde_json, and a verified reader of decimal confidence values into
//! integer thousandths.

use vstd::prelude::*;
use vstd::string::StrSliceExecFns;

verus! {

/// The string value of field `key` of the top-level JSON object in `text`;
/// None when `text` is not a JSON object or the field is absent or not a
/// string.
pub uninterp spec fn json_string_field(text: Seq<char>, key: Seq<char>) -> Option<Seq<char>>;

/// The JSON text of field `key` of the top-level JSON object in `text`;
/// None when `text` is not a JSON object or the field is absent.
pub uninterp spec fn json_field(text: Seq<char>, key: Seq<char>) -> Option<Seq<char>>;

/// The JSON texts of the elements of the array field `key` of the
/// top-level JSON object in `text`; None when absent or not an array.
pub uninterp spec fn json_array_elems(text: Seq<char>, key: Seq<char>) -> Option<Seq<Seq<char>>>;

/// The string elements of the array field `key`; non-string elements are
/// left out.
pub uninterp spec fn json_string_elems(text: Seq<char>, key: Seq<char>) -> Option<Seq<Seq<char>>>;

/// Relies on serde_json::from_str and Value::get / Value::as_str: the
/// string value of one field of the parsed object, a function of the two
/// arguments alone.
#[verifier::external_body]
pub fn get_string_field(text: &str, key: &str) -> (r: Option<String>)
    ensures
        match r {
            Some(s) => json_string_field(text@, key@) == Some(s@),
            None => json_string_field(text@, key@) is None,
        },
{
    serde_json::from_str::<serde_json::Value>(text)
        .ok()
        .and_then(|v| v.get(key).and_then(|f| f.as_str().map(|s| s.to_string())))
}

/// Relies on serde_json::from_str and Value::get / Value::to_string: the
/// JSON text of one field of the parsed object, a function of the two
/// arguments alone.
#[verifier::external_body]
pub fn get_field_text(text: &str, key: &str) -> (r: Option<String>)
    ensures
        match r {
            Some(s) => json_field(text@, key@) == Some(s@),
            None => json_field(text@, key@) is None,
        },
{
    serde_json::from_str::<serde_json::Value>(text)
        .ok()
        .and_then(|v| v.get(key).map(|f| f.to_string()))
}

/// Relies on serde_json::from_str, Value::get / Value::as_array and
/// Value::to_string: the JSON texts of an array field's elements, a
/// function of the two arguments alone.
#[verifier::external_body]
pub fn get_array_elems(text: &str, key: &str) -> (r: Option<Vec<String>>)
    ensures
        match r {
            Some(v) => json_array_elems(text@, key@) matches Some(elems)
                && v@.len() == elems.len()
                && forall|i: int| 0 <= i < v@.len() ==> (#[trigger] v@[i])@ == elems[i],
            None => json_array_elems(text@, key@) is None,
        },
{
    serde_json::from_str::<serde_json::Value>(text).ok().and_then(|v| {
        v.get(key)
            .and_then(|f| f.as_array())
            .map(|items| items.iter().map(|item| item.to_string()).collect())
    })
}

/// Relies on serde_json::from_str, Value::get / Value::as_array and
/// Value::as_str: the string elements of an array field, a function of the
/// two arguments alone.
#[verifier::external_body]
pub fn get_string_elems(text: &str, key: &str) -> (r: Option<Vec<String>>)
    ensures
        match r {
            Some(v) => json_string_elems(text@, key@) matches Some(elems)
                && v@.len() == elems.len()
                && forall|i: int| 0 <= i < v@.len() ==> (#[trigger] v@[i])@ == elems[i],
            None => json_string_elems(text@, key@) is None,
        },
{
    serde_json::from_str::<serde_json::Value>(text).ok().and_then(|v| {
        v.get(key).and_then(|f| f.as_array()).map(|items| {
            items.iter().filter_map(|item| item.as_str().map(|s| s.to_string())).collect()
        })
    })
}

pub open spec fn is_digit(c: char) -> bool {
    48 <= c as u32 <= 57
}

pub open spec fn digit_of(c: char) -> nat {
    (c as u32 - 48) as nat
}

pub open spec fn all_digits(s: Seq<char>) -> bool {
    forall|i: int| 0 <= i < s.len() ==> is_digit(#[trigger] s[i])
}

/// The value of a digit string read left to right.
pub open spec fn digits_val(s: Seq<char>) -> nat
    decreases s.len(),
{
    if s.len() == 0 {
        0
    } else {
        digits_val(s.drop_last()) * 10 + digit_of(s.last())
    }
}

/// The first three fractional digits as thousandths, shorter fractions
/// scaled up.
pub open spec fn frac_millis(fp: Seq<char>) -> nat {
    if fp.len() >= 3 {
        digits_val(fp.subrange(0, 3))
    } else if fp.len() == 2 {
        digits_val(fp) * 10
    } else if fp.len() == 1 {
        digits_val(fp) * 100
    } else {
        0
    }
}

pub open spec fn clamp_millis(n: nat) -> u32 {
    if n > 1000 {
        1000
    } else {
        n as u32
    }
}

/// The thousandths value of a decimal number text: the integer part and
/// the first three fractional digits, clamped to the unit interval's upper
/// end; None when the text is not digits with at most one decimal point.
pub open spec fn spec_millis_of_number(s: Seq<char>) -> Option<u32> {
    match crate::text::spec_find(s, seq!['.'], 0) {
        None => if s.len() > 0 && all_digits(s) {
            Some(clamp_millis(digits_val(s) * 1000))
        } else {
            None
        },
        Some(d) => {
            let ip = s.subrange(0, d);
            let fp = s.subrange(d + 1, s.len() as int);
            if ip.len() > 0 && all_digits(ip) && all_digits(fp) {
                Some(clamp_millis(digits_val(ip) * 1000 + frac_millis(fp)))
            } else {
                None
            }
        },
    }
}

/// Digit strings grow in value as digits are appended.
proof fn lemma_digits_val_step(s: Seq<char>, i: int)
    requires
        0 <= i < s.len(),
    ensures
        digits_val(s.subrange(0, i + 1)) == digits_val(s.subrange(0, i)) * 10 + digit_of(s[i]),
{
    assert(s.subrange(0, i + 1).drop_last() =~= s.subrange(0, i));
    assert(s.subrange(0, i + 1).last() == s[i]);
}

/// Scan a digit run, saturating just above the clamp bound.
fn scan_digits_sat(s: &str, lo: usize, hi: usize) -> (r: Option<u32>)
    requires
        lo <= hi <= s@.len(),
    ensures
        match r {
            Some(v) => all_digits(s@.subrange(lo as int, hi as int))
                && (v <= 1000 && v == digits_val(s@.subrange(lo as int, hi as int))
                    || v == 1001 && digits_val(s@.subrange(lo as int, hi as int)) > 1000),
            None => !all_digits(s@.subrange(lo as int, hi as int)),
        },
{
    let ghost whole = s@.subrange(lo as int, hi as int);
    let mut v: u32 = 0;
    let mut i: usize = lo;
    while i < hi
        invariant
            lo <= i <= hi <= s@.len(),
            whole == s@.subrange(lo as int, hi as int),
            all_digits(s@.subrange(lo as int, i as int)),
            v <= 1000 && v == digits_val(s@.subrange(lo as int, i as int))
                || v == 1001 && digits_val(s@.subrange(lo as int, i as int)) > 1000,
        decreases hi - i,
    {
        let c = s.get_char(i);
        let code = c as u32;
        if code < 48 || code > 57 {
            proof {
                assert(s@.subrange(lo as int, hi as int)[i - lo] == s@[i as int]);
            }
            return None;
        }
        proof {
            let pre1 = s@.subrange(lo as int, i + 1);
            let pre = s@.subrange(lo as int, i as int);
            assert(pre1.drop_last() =~= pre);
            assert(pre1.last() == s@[i as int]);
            assert(digits_val(pre1) == digits_val(pre) * 10 + digit_of(s@[i as int]));
            assert forall|j: int| 0 <= j < pre1.len() implies is_digit(#[trigger] pre1[j]) by {
                if j < pre1.len() - 1 {
                    assert(pre1[j] == pre[j]);
                }
            }
        }
        let d = code - 48;
        if v <= 1000 {
            let next = v * 10 + d;
            if next > 1000 {
                v = 1001;
            } else {
                v = next;
            }
        }
        i += 1;
    }
    proof {
        assert(s@.subrange(lo as int, i as int) == whole);
    }
    Some(v)
}

/// Read a decimal number text as integer thousandths of a unit, clamped to
/// 1000.
pub fn millis_of_number(s: &str) -> (r: Option<u32>)
    ensures
        r == spec_millis_of_number(s@),
        r matches Some(v) ==> v <= 1000,
{
    proof {
        reveal_strlit(".");
    }
    let dot = ".";
    assert(dot@ =~= seq!['.']);
    let n = s.unicode_len();
    match crate::text::find_str(s, dot) {
        None => {
            if n == 0 {
                return None;
            }
            let v = match scan_digits_sat(s, 0, n) {
                None => {
                    proof {
                        assert(s@.subrange(0, n as int) =~= s@);
                    }
                    return None;
                },
                Some(v) => v,
            };
            proof {
                assert(s@.subrange(0, n as int) =~= s@);
            }
            if v > 0 {
                Some(1000)
            } else {
                Some(0)
            }
        },
        Some(d) => {
            proof {
                crate::text::lemma_spec_find_is_match(s@, dot@, 0);
            }
            if d == 0 {
                proof {
                    assert(s@.subrange(0, 0) =~= Seq::<char>::empty());
                }
                return None;
            }
            let ip = match scan_digits_sat(s, 0, d) {
                None => {
                    return None;
                },
                Some(v) => v,
            };
            let fp_hi = if n - d - 1 >= 3 {
                d + 4
            } else {
                n
            };
            let ghost fp = s@.subrange(d + 1, n as int);
            let fp_val = match scan_digits_sat(s, d + 1, fp_hi) {
                None => {
                    proof {
                        let bad = s@.subrange(d + 1, fp_hi as int);
                        let k = choose|k: int| 0 <= k < bad.len() && !is_digit(bad[k]);
                        assert(fp[k] == bad[k]);
                        assert(!all_digits(fp));
                    }
                    return None;
                },
                Some(v) => v,
            };
            if fp_hi < n {
                // the fraction has more than three digits: check the rest
                // are digits, then drop them
                match scan_digits_sat(s, fp_hi, n) {
                    None => {
                        proof {
                            let bad = s@.subrange(fp_hi as int, n as int);
                            let k = choose|k: int| 0 <= k < bad.len() && !is_digit(bad[k]);
                            assert(fp[k + 3] == bad[k]);
                            assert(!all_digits(fp));
                        }
                        return None;
                    },
                    Some(_) => {},
                }
            }
            proof {
                let scanned = s@.subrange(d + 1, fp_hi as int);
                assert forall|j: int| 0 <= j < fp.len() implies is_digit(#[trigger] fp[j]) by {
                    if j < scanned.len() {
                        assert(scanned[j] == fp[j]);
                    } else {
                        let rest = s@.subrange(fp_hi as int, n as int);
                        assert(rest[j - 3] == fp[j]);
                    }
                }
                if fp.len() >= 3 {
                    assert(scanned =~= fp.subrange(0, 3));
                    assert(frac_millis(fp) == digits_val(scanned));
                    assert(digits_val(scanned) <= 999) by {
                        lemma_digits_val_bound(scanned);
                    }
                } else {
                    assert(scanned =~= fp);
                    lemma_digits_val_bound(scanned);
                }
            }
            let scaled: u32 = if n - d - 1 >= 3 {
                fp_val
            } else if n - d - 1 == 2 {
                fp_val * 10
            } else if n - d - 1 == 1 {
                fp_val * 100
            } else {
                0
            };
            if ip >= 1 {
                // a whole unit or more: the clamp applies
                Some(1000)
            } else {
                Some(scaled)
            }
        },
    }
}

/// Digit strings of bounded length have bounded values.
proof fn lemma_digits_val_bound(s: Seq<char>)
    requires
        all_digits(s),
    ensures
        s.len() == 0 ==> digits_val(s) == 0,
        s.len() == 1 ==> digits_val(s) <= 9,
        s.len() == 2 ==> digits_val(s) <= 99,
        s.len() == 3 ==> digits_val(s) <= 999,
    decreases s.len(),
{
    if s.len() > 0 {
        assert(all_digits(s.drop_last())) by {
            assert(forall|i: int| 0 <= i < s.len() - 1 ==> s.drop_last()[i] == s[i]);
        }
        lemma_digits_val_bound(s.drop_last());
        assert(is_digit(s.last()));
        assert(digit_of(s.last()) <= 9);
    }
}

} // verus!
