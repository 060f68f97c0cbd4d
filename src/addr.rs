//! Bluetooth device addresses and service class ids in text form.
use crate::error::BtProxyError;
use crate::text::{chars_of, parse_number, parse_unsigned, split_chars, split_spec};
use vstd::prelude::*;

verus! {

/// The six bytes of a `XX:XX:XX:XX:XX:XX` address, last group first, or
/// `None` unless there are exactly six groups, each a hexadecimal byte.
pub open spec fn bdaddr_spec(s: Seq<char>) -> Option<Seq<u8>> {
    let parts = split_spec(s, ':');
    if parts.len() == 6 && forall|i: int| 0 <= i < 6 ==> #[trigger] parse_unsigned(parts[i], 16, 255) is Some {
        Some(Seq::new(6, |k: int| parse_unsigned(parts[5 - k], 16, 255).unwrap() as u8))
    } else {
        None
    }
}

fn invalid_bt_addr() -> (e: BtProxyError)
    ensures
        e is Config,
{
    BtProxyError::Config("invalid bt addr".to_string())
}

/// The bytes of a colon-separated address, in the order the RFCOMM socket
/// address holds them (reversed).
pub fn parse_bdaddr(addr: &str) -> (r: Result<[u8; 6], BtProxyError>)
    ensures
        r matches Ok(b) ==> bdaddr_spec(addr@) == Some(b@),
        r is Err ==> bdaddr_spec(addr@) is None,
        r matches Err(e) ==> e is Config,
{
    let chars = chars_of(addr);
    let parts = split_chars(&chars, ':');
    if parts.len() != 6 {
        return Err(invalid_bt_addr());
    }
    let ghost sp = split_spec(addr@, ':');
    let mut bytes: [u8; 6] = [0u8; 6];
    let mut i: usize = 0;
    while i < 6
        invariant
            i <= 6,
            parts@.len() == 6,
            sp == split_spec(addr@, ':'),
            sp.len() == 6,
            forall|k: int| 0 <= k < 6 ==> #[trigger] parts@[k]@ == sp[k],
            forall|k: int| 0 <= k < i ==> #[trigger] parse_unsigned(sp[k], 16, 255) is Some,
            forall|k: int| 0 <= k < i ==> bytes@[5 - k] == parse_unsigned(sp[k], 16, 255).unwrap() as u8,
            bytes@.len() == 6,
        decreases 6 - i,
    {
        match parse_number(&parts[i], 16, 255) {
            Some(v) => {
                bytes[5 - i] = v as u8;
            },
            None => {
                assert(parse_unsigned(sp[i as int], 16, 255) is None);
                return Err(invalid_bt_addr());
            },
        }
        i = i + 1;
    }
    assert(bytes@ =~= Seq::new(6, |k: int| parse_unsigned(sp[5 - k], 16, 255).unwrap() as u8));
    Ok(bytes)
}

/// The 48-bit address that the bytes stand for, first byte most significant.
pub open spec fn bt_addr_value(b: Seq<u8>) -> u64 {
    (b[0] * 0x100_0000_0000 + b[1] * 0x1_0000_0000 + b[2] * 0x100_0000 + b[3] * 0x1_0000 + b[4]
        * 0x100 + b[5]) as u64
}

/// A colon-separated address as the 64-bit value of a Windows Bluetooth
/// socket address.
pub fn parse_bt_addr(addr: &str) -> (r: Result<u64, BtProxyError>)
    ensures
        r matches Ok(v) ==> bdaddr_spec(addr@) matches Some(b) && v == bt_addr_value(b),
        r is Err ==> bdaddr_spec(addr@) is None,
        r matches Err(e) ==> e is Config,
{
    let b = parse_bdaddr(addr)?;
    let v: u64 = (b[0] as u64) * 0x100_0000_0000 + (b[1] as u64) * 0x1_0000_0000 + (b[2] as u64)
        * 0x100_0000 + (b[3] as u64) * 0x1_0000 + (b[4] as u64) * 0x100 + (b[5] as u64);
    Ok(v)
}

/// The bytes that pairs of hexadecimal digits spell, or `None` for an odd
/// count or a pair that is not a hexadecimal byte.
pub open spec fn hex_pairs_spec(c: Seq<char>) -> Option<Seq<u8>> {
    if c.len() % 2 == 0 && forall|k: int| 0 <= k < c.len() / 2 ==> #[trigger] parse_unsigned(
        c.subrange(2 * k, 2 * k + 2),
        16,
        255,
    ) is Some {
        Some(Seq::new(c.len() / 2, |k: int| parse_unsigned(c.subrange(2 * k, 2 * k + 2), 16, 255).unwrap() as u8))
    } else {
        None
    }
}

fn invalid_uuid() -> (e: BtProxyError)
    ensures
        e is Config,
{
    BtProxyError::Config("invalid uuid".to_string())
}

fn hex_pairs(c: &Vec<char>) -> (r: Result<Vec<u8>, BtProxyError>)
    ensures
        r matches Ok(b) ==> hex_pairs_spec(c@) == Some(b@),
        r is Err ==> hex_pairs_spec(c@) is None,
        r matches Err(e) ==> e is Config,
{
    let n = c.len();
    if n % 2 != 0 {
        return Err(invalid_uuid());
    }
    let mut out: Vec<u8> = Vec::new();
    let mut k: usize = 0;
    while k < n / 2
        invariant
            n == c@.len(),
            n % 2 == 0,
            k <= n / 2,
            out@.len() == k,
            forall|j: int| 0 <= j < k ==> #[trigger] parse_unsigned(c@.subrange(2 * j, 2 * j + 2), 16, 255) is Some,
            forall|j: int| 0 <= j < k ==> out@[j] == parse_unsigned(c@.subrange(2 * j, 2 * j + 2), 16, 255).unwrap() as u8,
        decreases n / 2 - k,
    {
        let mut pair: Vec<char> = Vec::new();
        pair.push(c[2 * k]);
        pair.push(c[2 * k + 1]);
        assert(pair@ =~= c@.subrange(2 * k as int, 2 * k + 2));
        match parse_number(&pair, 16, 255) {
            Some(v) => out.push(v as u8),
            None => return Err(invalid_uuid()),
        }
        k = k + 1;
    }
    assert(out@ =~= Seq::new((n / 2) as nat, |j: int| parse_unsigned(c@.subrange(2 * j, 2 * j + 2), 16, 255).unwrap() as u8));
    Ok(out)
}

/// The bytes that pairs of hexadecimal digits in `value` spell.
pub fn hex_to_bytes(value: &str) -> (r: Result<Vec<u8>, BtProxyError>)
    ensures
        r matches Ok(b) ==> hex_pairs_spec(value@) == Some(b@),
        r is Err ==> hex_pairs_spec(value@) is None,
        r matches Err(e) ==> e is Config,
{
    hex_pairs(&chars_of(value))
}

/// A service class id: the fields of a GUID.
#[derive(Debug, Clone, Copy, PartialEq, Eq)]
pub struct Guid {
    pub data1: u32,
    pub data2: u16,
    pub data3: u16,
    pub data4: [u8; 8],
}

/// The characters of `s` without its leading and trailing Unicode white
/// space.
pub uninterp spec fn trimmed(s: Seq<char>) -> Seq<char>;

/// Relies on `str::trim`: leading and trailing white space removed.
#[verifier::external_body]
fn trim_str(s: &str) -> (r: &str)
    ensures
        r@ == trimmed(s@),
{
    s.trim()
}

/// The fields of a `xxxxxxxx-xxxx-xxxx-xxxx-xxxxxxxxxxxx` id, white space
/// around it aside.
pub open spec fn uuid_spec(s: Seq<char>) -> Option<(u32, u16, u16, Seq<u8>)> {
    let parts = split_spec(trimmed(s), '-');
    if parts.len() == 5 && parse_unsigned(parts[0], 16, u32::MAX as nat) is Some && parse_unsigned(
        parts[1],
        16,
        65535,
    ) is Some && parse_unsigned(parts[2], 16, 65535) is Some && parts[3].len() == 4
        && parts[4].len() == 12 && hex_pairs_spec(parts[3]) is Some && hex_pairs_spec(parts[4]) is Some {
        Some(
            (
                parse_unsigned(parts[0], 16, u32::MAX as nat).unwrap() as u32,
                parse_unsigned(parts[1], 16, 65535).unwrap() as u16,
                parse_unsigned(parts[2], 16, 65535).unwrap() as u16,
                hex_pairs_spec(parts[3]).unwrap() + hex_pairs_spec(parts[4]).unwrap(),
            ),
        )
    } else {
        None
    }
}

/// The GUID that a textual service class id stands for.
pub fn parse_uuid(uuid: &str) -> (r: Result<Guid, BtProxyError>)
    ensures
        r matches Ok(g) ==> uuid_spec(uuid@) == Some((g.data1, g.data2, g.data3, g.data4@)),
        r is Err ==> uuid_spec(uuid@) is None,
        r matches Err(e) ==> e is Config,
{
    let chars = chars_of(trim_str(uuid));
    let parts = split_chars(&chars, '-');
    if parts.len() != 5 {
        return Err(invalid_uuid());
    }
    let d1 = match parse_number(&parts[0], 16, 0xffff_ffff) {
        Some(v) => v as u32,
        None => return Err(invalid_uuid()),
    };
    let d2 = match parse_number(&parts[1], 16, 0xffff) {
        Some(v) => v as u16,
        None => return Err(invalid_uuid()),
    };
    let d3 = match parse_number(&parts[2], 16, 0xffff) {
        Some(v) => v as u16,
        None => return Err(invalid_uuid()),
    };
    if parts[3].len() != 4 || parts[4].len() != 12 {
        return Err(invalid_uuid());
    }
    let b4 = hex_pairs(&parts[3])?;
    let b5 = hex_pairs(&parts[4])?;
    let mut data4: [u8; 8] = [0u8; 8];
    data4[0] = b4[0];
    data4[1] = b4[1];
    let mut i: usize = 0;
    while i < 6
        invariant
            i <= 6,
            b4@.len() == 2,
            b5@.len() == 6,
            data4@.len() == 8,
            data4@[0] == b4@[0],
            data4@[1] == b4@[1],
            forall|k: int| 0 <= k < i ==> data4@[2 + k] == b5@[k],
        decreases 6 - i,
    {
        data4[2 + i] = b5[i];
        i = i + 1;
    }
    assert(data4@ =~= b4@ + b5@);
    Ok(Guid { data1: d1, data2: d2, data3: d3, data4 })
}

/// How an RFCOMM client names the service it connects to.
#[derive(Debug, Clone, Copy, PartialEq, Eq)]
pub enum RfcommService {
    /// A channel number.
    Channel(u8),
    /// A service class id, to be resolved by the platform.
    ServiceClass(Guid),
}

/// The service to connect to: the channel where one is given, else the
/// service class id; one of the two is required.
pub fn rfcomm_service(uuid: Option<&str>, channel: Option<u8>) -> (r: Result<RfcommService, BtProxyError>)
    ensures
        channel matches Some(c) ==> r == Ok::<RfcommService, BtProxyError>(RfcommService::Channel(c)),
        channel is None && uuid is None ==> (r matches Err(e) && e is Config),
        channel is None ==> (uuid matches Some(u) ==> match r {
            Ok(RfcommService::ServiceClass(g)) => uuid_spec(u@) == Some((g.data1, g.data2, g.data3, g.data4@)),
            Ok(_) => false,
            Err(e) => uuid_spec(u@) is None && e is Config,
        }),
{
    match channel {
        Some(c) => Ok(RfcommService::Channel(c)),
        None => match uuid {
            Some(u) => Ok(RfcommService::ServiceClass(parse_uuid(u)?)),
            None => Err(BtProxyError::Config("missing channel or uuid for windows rfcomm".to_string())),
        },
    }
}

} // verus!
