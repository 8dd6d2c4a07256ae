//! Reading what was typed into the fields for address, gateway and name
//! servers.

use vstd::prelude::*;
use vstd::string::*;
use crate::models::{opt_text, opt_texts, texts};
use crate::text::{
    chars_of, find_char, first_index_of, lemma_first_index_of, parse_unsigned, split, split_on,
    trim_range, trimmed, unsigned_value,
};

verus! {

/// The prefix length that goes with an address that names none.
pub const DEFAULT_PREFIX: u32 = 24;

/// The longest prefix of an IPv4 address.
pub const MAX_PREFIX: u32 = 32;

/// One of the four numbers of an IPv4 address: up to three characters that
/// write a number of at most 255.
pub open spec fn octet_text(part: Seq<char>) -> bool {
    1 <= part.len() <= 3 && unsigned_value(part, 255) is Some
}

/// An IPv4 address in dotted form: four numbers with dots between them.
pub open spec fn ipv4_text(s: Seq<char>) -> bool {
    let parts = split_on(s, '.');
    parts.len() == 4 && forall|i: int| 0 <= i < 4 ==> octet_text(#[trigger] parts[i])
}

/// An address that is taken for a gateway or a name server: an IPv4 address,
/// or anything with a colon in it, which passes for IPv6.
pub open spec fn address_text(s: Seq<char>) -> bool {
    ipv4_text(s) || s.contains(':')
}

/// What is said of a prefix that cannot be used.
pub open spec fn bad_prefix() -> Seq<char> {
    "Invalid prefix (0-32)"@
}

/// The prefix length that `s` writes: a number from 0 to 32.
pub open spec fn prefix_of(s: Seq<char>) -> Result<u32, Seq<char>> {
    match unsigned_value(s, u32::MAX as nat) {
        Some(v) => if v <= MAX_PREFIX {
            Ok(v as u32)
        } else {
            Err(bad_prefix())
        },
        None => Err(bad_prefix()),
    }
}

/// An address and the prefix length that belongs to it, as `s` gives them:
/// what stands before the first slash and the number after it, or all of
/// `s` and 24 where no number follows a slash.
pub open spec fn address_and_prefix(s: Seq<char>) -> (Seq<char>, u32) {
    let i = first_index_of(s, '/');
    if 0 <= i < s.len() && unsigned_value(s.skip(i + 1), u32::MAX as nat) is Some {
        (s.take(i), unsigned_value(s.skip(i + 1), u32::MAX as nat)->0 as u32)
    } else {
        (s, DEFAULT_PREFIX)
    }
}

/// The characters from `from` up to `to`, as a string of their own.
fn copy_range(s: &str, from: usize, to: usize) -> (r: String)
    requires
        from <= to <= s@.len(),
    ensures
        r@ == s@.subrange(from as int, to as int),
{
    s.substring_char(from, to).to_string()
}

/// Whether the characters from `from` up to `to` are an IPv4 address.
fn is_ipv4_range(chars: &Vec<char>, from: usize, to: usize) -> (r: bool)
    requires
        from <= to <= chars@.len(),
    ensures
        r == ipv4_text(chars@.subrange(from as int, to as int)),
{
    let ghost whole = chars@.subrange(from as int, to as int);
    let parts = split(chars, from, to, '.');
    if parts.len() != 4 {
        return false;
    }
    let mut i: usize = 0;
    while i < 4
        invariant
            i <= 4,
            parts@.len() == 4,
            whole == chars@.subrange(from as int, to as int),
            split_on(whole, '.').len() == 4,
            to <= chars@.len(),
            forall|k: int|
                0 <= k < 4 ==> from <= (#[trigger] parts@[k]).0 <= parts@[k].1 <= to
                    && chars@.subrange(parts@[k].0 as int, parts@[k].1 as int) == split_on(
                    whole,
                    '.',
                )[k],
            forall|k: int| 0 <= k < i ==> octet_text(#[trigger] split_on(whole, '.')[k]),
        decreases 4 - i,
    {
        let (a, b) = parts[i];
        assert(chars@.subrange(a as int, b as int) == split_on(whole, '.')[i as int]);
        if b - a < 1 || b - a > 3 {
            return false;
        }
        if parse_unsigned(chars, a, b, 255).is_none() {
            return false;
        }
        i += 1;
    }
    true
}

/// Whether the characters from `from` up to `to` pass for an address.
fn is_address_range(chars: &Vec<char>, from: usize, to: usize) -> (r: bool)
    requires
        from <= to <= chars@.len(),
    ensures
        r == address_text(chars@.subrange(from as int, to as int)),
{
    if is_ipv4_range(chars, from, to) {
        return true;
    }
    proof {
        lemma_first_index_of(chars@.subrange(from as int, to as int), ':');
    }
    find_char(chars, from, to, ':') < to
}

/// Whether `input` is an IPv4 address in dotted form.
pub fn is_ipv4(input: &str) -> (r: bool)
    ensures
        r == ipv4_text(input@),
{
    let chars = chars_of(input);
    assert(chars@.subrange(0, chars@.len() as int) =~= chars@);
    is_ipv4_range(&chars, 0, chars.len())
}

/// Whether `input` passes for an address: IPv4 in dotted form, or anything
/// with a colon in it.
pub fn is_ip_or_ipv6(input: &str) -> (r: bool)
    ensures
        r == address_text(input@),
{
    let chars = chars_of(input);
    assert(chars@.subrange(0, chars@.len() as int) =~= chars@);
    is_address_range(&chars, 0, chars.len())
}

/// Reads the characters from `from` up to `to` as a prefix length.
fn parse_prefix_range(chars: &Vec<char>, from: usize, to: usize) -> (r: Result<u32, String>)
    requires
        from <= to <= chars@.len(),
    ensures
        match prefix_of(chars@.subrange(from as int, to as int)) {
            Ok(v) => r == Ok::<u32, String>(v),
            Err(m) => r matches Err(e) && e@ == m,
        },
{
    match parse_unsigned(chars, from, to, u32::MAX) {
        Some(v) => {
            if v > MAX_PREFIX {
                Err("Invalid prefix (0-32)".to_string())
            } else {
                Ok(v)
            }
        },
        None => Err("Invalid prefix (0-32)".to_string()),
    }
}

/// Reads `input` as a prefix length: a number from 0 to 32.
pub fn parse_prefix(input: &str) -> (r: Result<u32, String>)
    ensures
        match prefix_of(input@) {
            Ok(v) => r == Ok::<u32, String>(v),
            Err(m) => r matches Err(e) && e@ == m,
        },
{
    let chars = chars_of(input);
    assert(chars@.subrange(0, chars@.len() as int) =~= chars@);
    parse_prefix_range(&chars, 0, chars.len())
}

/// Parts `input` into an address and a prefix length at the first slash.
/// Where there is no slash, or no number after it, all of `input` is the
/// address and the prefix length is 24.
pub fn parse_ip_prefix(input: &str) -> (r: (String, u32))
    ensures
        r.0@ == address_and_prefix(input@).0,
        r.1 == address_and_prefix(input@).1,
{
    let chars = chars_of(input);
    let n = chars.len();
    assert(chars@.subrange(0, n as int) =~= chars@);
    proof {
        lemma_first_index_of(chars@, '/');
    }
    let at = find_char(&chars, 0, n, '/');
    if at < n {
        assert(chars@.subrange(at + 1, n as int) =~= chars@.skip(at + 1));
        match parse_unsigned(&chars, at + 1, n, u32::MAX) {
            Some(prefix) => {
                assert(chars@.subrange(0, at as int) =~= chars@.take(at as int));
                return (copy_range(input, 0, at), prefix);
            },
            None => {},
        }
    }
    (input.to_string(), DEFAULT_PREFIX)
}

/// What the three fields of the details dialog were read as.
#[derive(Debug)]
pub struct ParsedNetworkInput {
    pub ip: Option<String>,
    pub prefix: Option<u32>,
    pub gateway: Option<String>,
    pub dns: Option<Vec<String>>,
}

/// The fields as contracts see them.
pub struct ParsedInputView {
    pub ip: Option<Seq<char>>,
    pub prefix: Option<u32>,
    pub gateway: Option<Seq<char>>,
    pub dns: Option<Seq<Seq<char>>>,
}

impl View for ParsedNetworkInput {
    type V = ParsedInputView;

    open spec fn view(&self) -> ParsedInputView {
        ParsedInputView {
            ip: opt_text(self.ip),
            prefix: self.prefix,
            gateway: opt_text(self.gateway),
            dns: opt_texts(self.dns),
        }
    }
}

/// The address field: empty, or an IPv4 address, or one with a slash and a
/// prefix length after it.
pub open spec fn ip_input(ip_text: Seq<char>) -> Result<(Option<Seq<char>>, Option<u32>), Seq<char>> {
    let t = trimmed(ip_text);
    let i = first_index_of(t, '/');
    if t.len() == 0 {
        Ok((None, None))
    } else if 0 <= i < t.len() {
        let addr = trimmed(t.take(i));
        if addr.len() == 0 {
            Err("IP address is required"@)
        } else if !ipv4_text(addr) {
            Err("Invalid IP address"@)
        } else {
            match prefix_of(trimmed(t.skip(i + 1))) {
                Ok(prefix) => Ok((Some(addr), Some(prefix))),
                Err(m) => Err(m),
            }
        }
    } else if !ipv4_text(t) {
        Err("Invalid IP address"@)
    } else {
        Ok((Some(t), None))
    }
}

/// The gateway field: empty, or an address, which needs an IP address beside
/// it.
pub open spec fn gateway_input(gateway_text: Seq<char>, has_ip: bool) -> Result<
    Option<Seq<char>>,
    Seq<char>,
> {
    let t = trimmed(gateway_text);
    if t.len() == 0 {
        Ok(None)
    } else if !address_text(t) {
        Err("Invalid gateway address"@)
    } else if !has_ip {
        Err("Gateway requires an IP address"@)
    } else {
        Ok(Some(t))
    }
}

/// The name servers among the parts of the field: each part without the
/// white space around it, the empty ones left out. The first part that is
/// no address is an error.
pub open spec fn dns_entries(parts: Seq<Seq<char>>) -> Result<Seq<Seq<char>>, Seq<char>>
    decreases parts.len(),
{
    if parts.len() == 0 {
        Ok(Seq::empty())
    } else {
        let entry = trimmed(parts[0]);
        if entry.len() == 0 {
            dns_entries(parts.drop_first())
        } else if !address_text(entry) {
            Err("Invalid DNS server: "@ + entry)
        } else {
            match dns_entries(parts.drop_first()) {
                Ok(rest) => Ok(seq![entry] + rest),
                Err(m) => Err(m),
            }
        }
    }
}

/// The field of the name servers: addresses with commas between them. A
/// field that names none gives none.
pub open spec fn dns_input(dns_text: Seq<char>) -> Result<Option<Seq<Seq<char>>>, Seq<char>> {
    let t = trimmed(dns_text);
    if t.len() == 0 {
        Ok(None)
    } else {
        match dns_entries(split_on(t, ',')) {
            Ok(list) => if list.len() == 0 {
                Ok(None)
            } else {
                Ok(Some(list))
            },
            Err(m) => Err(m),
        }
    }
}

/// What the three fields are read as. The address is looked at first, then
/// the gateway, then the name servers; the first of them that cannot be used
/// decides the error.
pub open spec fn parsed_inputs(
    ip_text: Seq<char>,
    gateway_text: Seq<char>,
    dns_text: Seq<char>,
) -> Result<ParsedInputView, Seq<char>> {
    match ip_input(ip_text) {
        Err(m) => Err(m),
        Ok((ip, prefix)) => match gateway_input(gateway_text, ip is Some) {
            Err(m) => Err(m),
            Ok(gateway) => match dns_input(dns_text) {
                Err(m) => Err(m),
                Ok(dns) => Ok(ParsedInputView { ip, prefix, gateway, dns }),
            },
        },
    }
}

/// A result and its model say the same.
pub open spec fn same_outcome(
    r: Result<ParsedNetworkInput, String>,
    model: Result<ParsedInputView, Seq<char>>,
) -> bool {
    match model {
        Ok(view) => r matches Ok(parsed) && parsed@ == view,
        Err(m) => r matches Err(e) && e@ == m,
    }
}

fn read_ip(text: &str) -> (r: Result<(Option<String>, Option<u32>), String>)
    ensures
        match ip_input(text@) {
            Ok((ip, prefix)) => r matches Ok(pair) && opt_text(pair.0) == ip && pair.1 == prefix,
            Err(m) => r matches Err(e) && e@ == m,
        },
{
    let chars = chars_of(text);
    let n = chars.len();
    assert(chars@.subrange(0, n as int) =~= chars@);
    let (from, to) = trim_range(&chars, 0, n);
    let ghost t = chars@.subrange(from as int, to as int);
    if from == to {
        return Ok((None, None));
    }
    proof {
        lemma_first_index_of(t, '/');
    }
    let at = find_char(&chars, from, to, '/');
    if at < to {
        assert(chars@.subrange(from as int, at as int) =~= t.take(at - from));
        assert(chars@.subrange(at + 1, to as int) =~= t.skip(at - from + 1));
        let (a0, a1) = trim_range(&chars, from, at);
        let (pre_from, pre_to) = trim_range(&chars, at + 1, to);
        if a0 == a1 {
            return Err("IP address is required".to_string());
        }
        if !is_ipv4_range(&chars, a0, a1) {
            return Err("Invalid IP address".to_string());
        }
        match parse_prefix_range(&chars, pre_from, pre_to) {
            Ok(prefix) => Ok((Some(copy_range(text, a0, a1)), Some(prefix))),
            Err(e) => Err(e),
        }
    } else {
        if !is_ipv4_range(&chars, from, to) {
            return Err("Invalid IP address".to_string());
        }
        Ok((Some(copy_range(text, from, to)), None))
    }
}

fn read_gateway(text: &str, has_ip: bool) -> (r: Result<Option<String>, String>)
    ensures
        match gateway_input(text@, has_ip) {
            Ok(gateway) => r matches Ok(g) && opt_text(g) == gateway,
            Err(m) => r matches Err(e) && e@ == m,
        },
{
    let chars = chars_of(text);
    let n = chars.len();
    assert(chars@.subrange(0, n as int) =~= chars@);
    let (from, to) = trim_range(&chars, 0, n);
    if from == to {
        return Ok(None);
    }
    if !is_address_range(&chars, from, to) {
        return Err("Invalid gateway address".to_string());
    }
    if !has_ip {
        return Err("Gateway requires an IP address".to_string());
    }
    Ok(Some(copy_range(text, from, to)))
}

/// The entries found so far, followed by what the parts still to come give.
spec fn entries_then(found: Seq<Seq<char>>, rest: Result<Seq<Seq<char>>, Seq<char>>) -> Result<
    Seq<Seq<char>>,
    Seq<char>,
> {
    match rest {
        Ok(list) => Ok(found + list),
        Err(m) => Err(m),
    }
}

fn read_dns(text: &str) -> (r: Result<Option<Vec<String>>, String>)
    ensures
        match dns_input(text@) {
            Ok(Some(list)) => r matches Ok(Some(l)) && texts(l@) == list,
            Ok(None) => r matches Ok(None),
            Err(m) => r matches Err(e) && e@ == m,
        },
{
    let chars = chars_of(text);
    let n = chars.len();
    assert(chars@.subrange(0, n as int) =~= chars@);
    let (from, to) = trim_range(&chars, 0, n);
    let ghost t = chars@.subrange(from as int, to as int);
    if from == to {
        return Ok(None);
    }
    let parts = split(&chars, from, to, ',');
    let ghost model = split_on(t, ',');
    let mut list: Vec<String> = Vec::new();
    let mut k: usize = 0;
    assert(model.skip(0) =~= model);
    assert(texts(list@) =~= Seq::<Seq<char>>::empty());
    assert(entries_then(texts(list@), dns_entries(model)) == dns_entries(model)) by {
        match dns_entries(model) {
            Ok(l) => assert(Seq::<Seq<char>>::empty() + l =~= l),
            Err(_) => {},
        }
    }
    while k < parts.len()
        invariant
            k <= parts@.len(),
            parts@.len() == model.len(),
            chars@ == text@,
            to <= chars@.len(),
            trimmed(text@).len() > 0,
            model == split_on(trimmed(text@), ','),
            forall|j: int|
                0 <= j < parts@.len() ==> from <= (#[trigger] parts@[j]).0 <= parts@[j].1 <= to
                    && chars@.subrange(parts@[j].0 as int, parts@[j].1 as int) == model[j],
            dns_entries(model) == entries_then(texts(list@), dns_entries(model.skip(k as int))),
        decreases parts.len() - k,
    {
        let (a, b) = parts[k];
        let ghost rest = model.skip(k as int);
        assert(rest[0] == model[k as int]);
        assert(rest.drop_first() =~= model.skip(k + 1));
        let (e0, e1) = trim_range(&chars, a, b);
        if e0 != e1 {
            if !is_address_range(&chars, e0, e1) {
                let entry = copy_range(text, e0, e1);
                let mut message = "Invalid DNS server: ".to_string();
                message.append(entry.as_str());
                return Err(message);
            }
            let ghost before = texts(list@);
            list.push(copy_range(text, e0, e1));
            proof {
                let entry = trimmed(model[k as int]);
                assert(texts(list@) =~= before.push(entry));
                match dns_entries(model.skip(k + 1)) {
                    Ok(l) => assert(before + (seq![entry] + l) =~= before.push(entry) + l),
                    Err(_) => {},
                }
            }
        }
        k += 1;
    }
    proof {
        assert(model.skip(k as int).len() == 0);
        assert(texts(list@) + Seq::<Seq<char>>::empty() =~= texts(list@));
    }
    if list.len() == 0 {
        Ok(None)
    } else {
        Ok(Some(list))
    }
}

/// Reads the three fields of the details dialog. Each is taken without the
/// white space around it, and may be empty. The address may carry a prefix
/// length after a slash; a gateway needs an address beside it; the name
/// servers stand with commas between them.
pub fn parse_network_inputs(ip_text: &str, gateway_text: &str, dns_text: &str) -> (r: Result<
    ParsedNetworkInput,
    String,
>)
    ensures
        same_outcome(r, parsed_inputs(ip_text@, gateway_text@, dns_text@)),
{
    let (ip, prefix) = match read_ip(ip_text) {
        Ok(pair) => pair,
        Err(e) => {
            return Err(e);
        },
    };
    let gateway = match read_gateway(gateway_text, ip.is_some()) {
        Ok(gateway) => gateway,
        Err(e) => {
            return Err(e);
        },
    };
    let dns = match read_dns(dns_text) {
        Ok(dns) => dns,
        Err(e) => {
            return Err(e);
        },
    };
    Ok(ParsedNetworkInput { ip, prefix, gateway, dns })
}

} // verus!
