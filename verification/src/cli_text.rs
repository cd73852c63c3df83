//! Small texts that the command line builds: shortened addresses, query
//! strings, file names and trace addresses.

use vstd::prelude::*;
use vstd::string::{StrSliceExecFns, StringExecFns};
use crate::number::{natural_text, push_natural};
use crate::placeholder::{is_ident_char, is_type_param_ident_char};
use crate::text::{chars_string, contains_char, copy_range, str_chars};

verus! {

/// An address cut down for display: the first six and the last four
/// characters around three dots, where it is longer than twelve.
pub open spec fn shortened(s: Seq<char>) -> Seq<char> {
    if s.len() > 12 {
        s.take(6) + seq!['.', '.', '.'] + s.skip(s.len() - 4)
    } else {
        s
    }
}

/// The path with the ledger version as a query parameter, joined by `&`
/// where the path has a query already and by `?` where it has none.
pub open spec fn versioned_path(path: Seq<char>, ledger_version: Option<u64>) -> Seq<char> {
    match ledger_version {
        Some(version) => path + seq![if path.contains('?') { '&' } else { '?' }]
            + "ledger_version="@ + natural_text(version as nat),
        None => path,
    }
}

/// A character that a file name may hold: an ASCII letter or digit, `_`,
/// `-` or `.`.
pub open spec fn is_file_char(c: char) -> bool {
    is_ident_char(c) || c == '-' || c == '.'
}

/// `s` with an underscore for every character that a file name may not
/// hold; `output` for the empty text.
pub open spec fn sanitized(s: Seq<char>) -> Seq<char> {
    if s.len() == 0 {
        "output"@
    } else {
        Seq::new(s.len(), |i: int| if is_file_char(s[i]) { s[i] } else { '_' })
    }
}

/// `s` without the `0x` or `0X` it may begin with.
pub open spec fn without_hex_prefix(s: Seq<char>) -> Seq<char> {
    if s.len() >= 2 && s[0] == '0' && (s[1] == 'x' || s[1] == 'X') {
        s.skip(2)
    } else {
        s
    }
}

/// The position of the first string at or after `from` that is not empty,
/// or the number of strings.
pub open spec fn first_non_empty(values: Seq<String>, from: int) -> int
    decreases values.len() - from,
{
    if 0 <= from < values.len() && values[from]@.len() == 0 {
        first_non_empty(values, from + 1)
    } else {
        from
    }
}

/// The address under which the call trace of a transaction is served.
pub open spec fn sentio_call_trace_url(chain_id: u16, tx_hash: Seq<char>) -> Seq<char> {
    "https://app.sentio.xyz/api/v1/move/call_trace?networkId="@ + natural_text(chain_id as nat)
        + "&txHash="@ + tx_hash
}

/// Cuts an address down for display. Lengths are counted in characters.
pub fn shorten_addr(value: &str) -> (out: String)
    ensures
        out@ == shortened(value@),
{
    let chars = str_chars(value);
    let n = chars.len();
    if n > 12 {
        let head = copy_range(&chars, 0, 6);
        let tail = copy_range(&chars, n - 4, n);
        let mut out = chars_string(&head);
        out.append("...");
        let tail_text = chars_string(&tail);
        out.append(tail_text.as_str());
        proof {
            reveal_strlit("...");
            assert("..."@ =~= seq!['.', '.', '.']);
            assert(chars@.subrange(0, 6) =~= chars@.take(6));
            assert(chars@.subrange(n - 4, n as int) =~= chars@.skip(n - 4));
        }
        out
    } else {
        value.to_owned()
    }
}

/// Adds the ledger version to a path as a query parameter, where one is
/// given.
pub fn with_optional_ledger_version(path: &str, ledger_version: Option<u64>) -> (out: String)
    ensures
        out@ == versioned_path(path@, ledger_version),
{
    match ledger_version {
        Some(version) => {
            let chars = str_chars(path);
            let mut out = path.to_owned();
            if contains_char(&chars, '?') {
                out.push('&');
            } else {
                out.push('?');
            }
            out.append("ledger_version=");
            push_natural(version, &mut out);
            proof {
                assert(out@ =~= versioned_path(path@, ledger_version));
            }
            out
        },
        None => path.to_owned(),
    }
}

/// Whether a file name may hold `ch`.
pub fn is_file_name_char(ch: char) -> (r: bool)
    ensures
        r == is_file_char(ch),
{
    is_type_param_ident_char(ch) || ch == '-' || ch == '.'
}

/// Makes a file name of `value`: every character that a file name may not
/// hold becomes an underscore, and the empty text becomes `output`.
pub fn sanitize_file_component(value: &str) -> (out: String)
    ensures
        out@ == sanitized(value@),
{
    let chars = str_chars(value);
    if chars.len() == 0 {
        return "output".to_owned();
    }
    let mut out = String::new();
    let mut i: usize = 0;
    while i < chars.len()
        invariant
            i <= chars@.len(),
            chars@ == value@,
            out@.len() == i,
            forall|j: int|
                0 <= j < i ==> out@[j] == (if is_file_char(chars@[j]) {
                    chars@[j]
                } else {
                    '_'
                }),
        decreases chars@.len() - i,
    {
        if is_file_name_char(chars[i]) {
            out.push(chars[i]);
        } else {
            out.push('_');
        }
        i += 1;
    }
    proof {
        assert(out@ =~= sanitized(value@));
    }
    out
}

/// The directory into which the modules of `address` are decompiled:
/// `decompiled/` and the file name made of the address.
pub fn default_decompile_output_dir(address: &str) -> (out: String)
    ensures
        out@ == "decompiled/"@ + sanitized(address@),
{
    let mut out = "decompiled/".to_owned();
    let name = sanitize_file_component(address);
    out.append(name.as_str());
    out
}

/// The address under which the call trace of the transaction `tx_hash` on
/// the chain `chain_id` is served.
pub fn build_sentio_call_trace_url(chain_id: u16, tx_hash: &str) -> (out: String)
    ensures
        out@ == sentio_call_trace_url(chain_id, tx_hash@),
{
    let mut out = "https://app.sentio.xyz/api/v1/move/call_trace?networkId=".to_owned();
    push_natural(chain_id as u64, &mut out);
    out.append("&txHash=");
    out.append(tx_hash);
    out
}

/// `value` without the `0x` or `0X` it may begin with.
pub fn strip_hex_prefix(value: &str) -> (out: &str)
    ensures
        out@ == without_hex_prefix(value@),
{
    let n = value.unicode_len();
    if n >= 2 && value.get_char(0) == '0' && (value.get_char(1) == 'x' || value.get_char(1)
        == 'X') {
        let out = value.substring_char(2, n);
        proof {
            assert(value@.subrange(2, n as int) =~= value@.skip(2));
        }
        out
    } else {
        value
    }
}

/// The first of `values` that is not empty.
pub fn first_non_empty_string(values: &[String]) -> (out: Option<String>)
    ensures
        match out {
            Some(found) => first_non_empty(values@, 0) < values@.len() && found@
                == values@[first_non_empty(values@, 0)]@,
            None => first_non_empty(values@, 0) >= values@.len(),
        },
{
    let mut i: usize = 0;
    while i < values.len()
        invariant
            i <= values@.len(),
            first_non_empty(values@, 0) == first_non_empty(values@, i as int),
        decreases values@.len() - i,
    {
        if !values[i].as_str().is_empty() {
            return Some(values[i].clone());
        }
        i += 1;
    }
    None
}

} // verus!
