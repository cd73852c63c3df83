//! Function identifiers: `address::module::function`.

use vstd::prelude::*;
use vstd::string::StringExecFns;
use crate::literal::hex_prefix;
use crate::address::{
    address_from_hex_literal, address_from_text, address_hex_literal, hex_literal_address,
    plain_hex_address, short_hex_literal, ADDRESS_LENGTH,
};
use crate::move_types::{is_identifier, is_valid_identifier};
use crate::text::{chars_string, copy_range, starts_with_chars, str_chars};

verus! {

/// A module of published code: the account that holds it and its name.
#[derive(Debug, Clone, PartialEq, Eq)]
pub struct ModuleKey {
    pub address: Vec<u8>,
    pub name: String,
}

/// The mathematical content of a [`ModuleKey`].
pub struct ModuleKeyView {
    pub address: Seq<u8>,
    pub name: Seq<char>,
}

impl View for ModuleKey {
    type V = ModuleKeyView;

    open spec fn view(&self) -> ModuleKeyView {
        ModuleKeyView { address: self.address@, name: self.name@ }
    }
}

impl ModuleKey {
    /// The address has the length of an address and the name is an
    /// identifier.
    pub open spec fn wf(&self) -> bool {
        self.address@.len() == ADDRESS_LENGTH && is_identifier(self.name@)
    }
}

/// A function of a module.
#[derive(Debug, Clone, PartialEq, Eq)]
pub struct FunctionId {
    pub module: ModuleKey,
    pub function: String,
}

/// The mathematical content of a [`FunctionId`].
pub struct FunctionIdView {
    pub module: ModuleKeyView,
    pub function: Seq<char>,
}

impl View for FunctionId {
    type V = FunctionIdView;

    open spec fn view(&self) -> FunctionIdView {
        FunctionIdView { module: self.module@, function: self.function@ }
    }
}

/// What is wrong with a function identifier.
#[derive(Debug, Clone, Copy, PartialEq, Eq, Structural)]
pub enum FunctionIdFault {
    /// It is not made of exactly three parts joined by `::`.
    SegmentCount,
    /// Its first part names no address.
    Address,
    /// Its second part is no identifier.
    ModuleName,
    /// Its third part is no identifier.
    FunctionName,
}

/// Whether the separator `::` stands at position `i` of `s`.
pub open spec fn separator_at(s: Seq<char>, i: int) -> bool {
    0 <= i && i + 1 < s.len() && s[i] == ':' && s[i + 1] == ':'
}

/// The position of the first separator at or after `from`, or a position
/// at or past the end when there is none.
pub open spec fn next_separator(s: Seq<char>, from: int) -> int
    decreases s.len() - from,
{
    if 0 <= from < s.len() && !separator_at(s, from) {
        next_separator(s, from + 1)
    } else {
        from
    }
}

/// Where the first and the second separator of `s` stand, when `s` is made
/// of exactly three parts.
pub open spec fn three_parts(s: Seq<char>) -> Option<(int, int)> {
    let first = next_separator(s, 0);
    let second = next_separator(s, first + 2);
    if first < s.len() && second < s.len() && next_separator(s, second + 2) >= s.len() {
        Some((first, second))
    } else {
        None
    }
}

/// The address that the first part of a function identifier names: a hex
/// literal where it begins with `0x`, else plain hexadecimal text of full
/// length.
pub open spec fn module_address(part: Seq<char>) -> Option<Seq<u8>> {
    if hex_prefix().is_prefix_of(part) {
        hex_literal_address(part)
    } else {
        plain_hex_address(part)
    }
}

/// The function that `s` identifies.
pub open spec fn function_id_of(s: Seq<char>) -> Result<FunctionIdView, FunctionIdFault> {
    match three_parts(s) {
        None => Err(FunctionIdFault::SegmentCount),
        Some((first, second)) => {
            let address = module_address(s.subrange(0, first));
            let module = s.subrange(first + 2, second);
            let function = s.subrange(second + 2, s.len() as int);
            if address is None {
                Err(FunctionIdFault::Address)
            } else if !is_identifier(module) {
                Err(FunctionIdFault::ModuleName)
            } else if !is_identifier(function) {
                Err(FunctionIdFault::FunctionName)
            } else {
                Ok(
                    FunctionIdView {
                        module: ModuleKeyView { address: address->Some_0, name: module },
                        function,
                    },
                )
            }
        },
    }
}

/// The text `address::module` of a module, the address as a short hex
/// literal.
pub open spec fn module_text(module: ModuleKeyView) -> Seq<char> {
    address_hex_literal(module.address) + seq![':', ':'] + module.name
}

fn find_separator(chars: &Vec<char>, from: usize) -> (at: usize)
    requires
        from <= chars@.len(),
    ensures
        at == next_separator(chars@, from as int),
        from <= at <= chars@.len(),
        at < chars@.len() ==> at + 2 <= chars@.len(),
{
    let n = chars.len();
    let mut i: usize = from;
    while i < n && !(n - i >= 2 && chars[i] == ':' && chars[i + 1] == ':')
        invariant
            from <= i <= n,
            n == chars@.len(),
            next_separator(chars@, from as int) == next_separator(chars@, i as int),
        decreases n - i,
    {
        i += 1;
    }
    i
}

impl FunctionId {
    /// Reads `address::module::function`: exactly three parts, an address,
    /// a module name and a function name.
    pub fn parse(input: &str) -> (out: Result<FunctionId, FunctionIdFault>)
        ensures
            match function_id_of(input@) {
                Ok(id) => out matches Ok(found) && found@ == id && found.module.wf(),
                Err(fault) => out == Err::<FunctionId, FunctionIdFault>(fault),
            },
    {
        let chars = str_chars(input);
        let n = chars.len();
        let first = find_separator(&chars, 0);
        if first >= n {
            return Err(FunctionIdFault::SegmentCount);
        }
        let second = find_separator(&chars, first + 2);
        if second >= n {
            return Err(FunctionIdFault::SegmentCount);
        }
        let third = find_separator(&chars, second + 2);
        if third < n {
            return Err(FunctionIdFault::SegmentCount);
        }
        let address_chars = copy_range(&chars, 0, first);
        let address_text = chars_string(&address_chars);
        let prefix: Vec<char> = vec!['0', 'x'];
        assert(prefix@ =~= hex_prefix());
        let parsed = if starts_with_chars(&address_chars, &prefix) {
            address_from_hex_literal(address_text.as_str())
        } else {
            address_from_text(address_text.as_str())
        };
        let address = match parsed {
            Some(address) => address,
            None => {
                return Err(FunctionIdFault::Address);
            },
        };
        let module_chars = copy_range(&chars, first + 2, second);
        let name = chars_string(&module_chars);
        if !is_valid_identifier(name.as_str()) {
            return Err(FunctionIdFault::ModuleName);
        }
        let function_chars = copy_range(&chars, second + 2, n);
        let function = chars_string(&function_chars);
        if !is_valid_identifier(function.as_str()) {
            return Err(FunctionIdFault::FunctionName);
        }
        Ok(FunctionId { module: ModuleKey { address, name }, function })
    }

    /// The text `address::module` of the module of the function.
    pub fn module_string(&self) -> (out: String)
        ensures
            out@ == module_text(self.module@),
    {
        self.module.to_text()
    }

    /// The text `address::module::function`.
    pub fn fully_qualified(&self) -> (out: String)
        ensures
            out@ == module_text(self.module@) + seq![':', ':'] + self.function@,
    {
        let mut out = self.module.to_text();
        out.append("::");
        out.append(self.function.as_str());
        proof {
            reveal_strlit("::");
            assert("::"@ =~= seq![':', ':']);
        }
        out
    }
}

impl ModuleKey {
    /// The text `address::module`, the address as a short hex literal.
    pub fn to_text(&self) -> (out: String)
        ensures
            out@ == module_text(self@),
    {
        let mut out = short_hex_literal(&self.address);
        out.append("::");
        out.append(self.name.as_str());
        proof {
            reveal_strlit("::");
            assert("::"@ =~= seq![':', ':']);
        }
        out
    }
}

} // verus!
