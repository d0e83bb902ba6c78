//! The decisions of a Bluetooth connection: which characteristics are which, whether the
//! brain asks for a PIN, and reading the PIN a user types.
use vstd::prelude::*;
use vstd::string::StrSliceExecFns;
use crate::bytes::be32_value;

verus! {

/// The service a V5 brain advertises.
pub const V5_ROBOT_SERVICE: u128 = 0x08590f7e_db05_467e_8757_72f6faeb13d5;

/// The characteristic the brain sends system data on.
pub const CHARACTERISTIC_TX_DATA: u128 = 0x08590f7e_db05_467e_8757_72f6faeb1306;

/// The characteristic system data is written to.
pub const CHARACTERISTIC_RX_DATA: u128 = 0x08590f7e_db05_467e_8757_72f6faeb13f5;

/// The characteristic the brain sends user data on.
pub const CHARACTERISTIC_TX_USER: u128 = 0x08590f7e_db05_467e_8757_72f6faeb1316;

/// The characteristic user data is written to.
pub const CHARACTERISTIC_RX_USER: u128 = 0x08590f7e_db05_467e_8757_72f6faeb1326;

/// The characteristic that holds the pairing code.
pub const CHARACTERISTIC_CODE: u128 = 0x08590f7e_db05_467e_8757_72f6faeb13e5;

/// What the code characteristic reads while the brain waits for a PIN.
pub const AUTH_REQUIRED: u32 = 0xdeadface;

/// The roles of the brain's characteristics.
#[derive(Copy, Clone, Debug, PartialEq, Eq, Structural)]
pub enum CharacteristicRole {
    TxData,
    RxData,
    TxUser,
    RxUser,
    Code,
}

/// The role of a characteristic, by its UUID.
pub open spec fn role_of(uuid: u128) -> Option<CharacteristicRole> {
    if uuid == CHARACTERISTIC_TX_DATA {
        Some(CharacteristicRole::TxData)
    } else if uuid == CHARACTERISTIC_RX_DATA {
        Some(CharacteristicRole::RxData)
    } else if uuid == CHARACTERISTIC_TX_USER {
        Some(CharacteristicRole::TxUser)
    } else if uuid == CHARACTERISTIC_RX_USER {
        Some(CharacteristicRole::RxUser)
    } else if uuid == CHARACTERISTIC_CODE {
        Some(CharacteristicRole::Code)
    } else {
        None
    }
}

/// Which of the brain's characteristics a UUID names, if any.
pub fn characteristic_role(uuid: u128) -> (role: Option<CharacteristicRole>)
    ensures
        role == role_of(uuid),
{
    if uuid == CHARACTERISTIC_TX_DATA {
        Some(CharacteristicRole::TxData)
    } else if uuid == CHARACTERISTIC_RX_DATA {
        Some(CharacteristicRole::RxData)
    } else if uuid == CHARACTERISTIC_TX_USER {
        Some(CharacteristicRole::TxUser)
    } else if uuid == CHARACTERISTIC_RX_USER {
        Some(CharacteristicRole::RxUser)
    } else if uuid == CHARACTERISTIC_CODE {
        Some(CharacteristicRole::Code)
    } else {
        None
    }
}

/// Whether the code characteristic's value (its first four bytes, big-endian) says the
/// brain waits for a PIN.
pub fn pin_required(code: &[u8]) -> (required: bool)
    requires
        code@.len() >= 4,
    ensures
        required == (be32_value(code@) == AUTH_REQUIRED),
{
    let value = code[0] as u32 * 16777216 + code[1] as u32 * 65536 + code[2] as u32 * 256
        + code[3] as u32;
    value == AUTH_REQUIRED
}

/// Whether a found device is the brain looked for: the one with the given address when
/// an address is given, else one that advertises the V5 service.
pub fn is_vex_device(
    mac_address: Option<[u8; 6]>,
    address: [u8; 6],
    services: Option<&[u128]>,
) -> (found: bool)
    ensures
        mac_address matches Some(m) ==> found == (m@ == address@),
        mac_address is None ==> found == (services matches Some(s) && s@.contains(V5_ROBOT_SERVICE)),
{
    match mac_address {
        Some(m) => {
            let mut i: usize = 0;
            while i < 6
                invariant
                    i <= 6,
                    mac_address == Some(m),
                    m@.len() == 6,
                    address@.len() == 6,
                    forall|j: int| 0 <= j < i ==> m@[j] == address@[j],
                decreases 6 - i,
            {
                if m[i] != address[i] {
                    return false;
                }
                i = i + 1;
            }
            assert(m@ =~= address@);
            true
        },
        None => match services {
            Some(s) => {
                let mut i: usize = 0;
                while i < s.len()
                    invariant
                        i <= s@.len(),
                        mac_address is None,
                        services == Some(s),
                        forall|j: int| 0 <= j < i ==> s@[j] != V5_ROBOT_SERVICE,
                    decreases s@.len() - i,
                {
                    if s[i] == V5_ROBOT_SERVICE {
                        assert(s@[i as int] == V5_ROBOT_SERVICE);
                        return true;
                    }
                    i = i + 1;
                }
                false
            },
            None => false,
        },
    }
}

/// The first four characters are decimal digits.
pub open spec fn pin_text(chars: Seq<char>) -> bool {
    chars.len() >= 4 && forall|i: int| 0 <= i < 4 ==> '0' <= #[trigger] chars[i] <= '9'
}

/// Reads a four-digit PIN from the start of a text: the value of each digit.
pub fn parse_pin(str: &str) -> (pin: Result<[u8; 4], ()>)
    ensures
        pin is Ok <==> pin_text(str@),
        pin matches Ok(p) ==> forall|i: int| 0 <= i < 4 ==> #[trigger] p@[i] == str@[i] as u32 - 48,
{
    let n = str.unicode_len();
    let mut output: [u8; 4] = [0u8; 4];
    let mut i: usize = 0;
    while i < 4
        invariant
            i <= 4,
            i <= n,
            n == str@.len(),
            output@.len() == 4,
            forall|j: int| 0 <= j < i ==> j < n && '0' <= #[trigger] str@[j] <= '9',
            forall|j: int| 0 <= j < i ==> #[trigger] output@[j] == str@[j] as u32 - 48,
        decreases 4 - i,
    {
        if i >= n {
            return Err(());
        }
        let next = str.get_char(i);
        if next >= '0' && next <= '9' {
            output[i] = (next as u32 - 48) as u8;
        } else {
            return Err(());
        }
        i = i + 1;
    }
    assert(n >= 4);
    assert(pin_text(str@));
    Ok(output)
}

/// What is written to the code characteristic to have the brain show its PIN.
pub fn pin_display_request() -> (request: [u8; 4])
    ensures
        request@ == seq![0xFFu8, 0xFFu8, 0xFFu8, 0xFFu8],
{
    let request: [u8; 4] = [0xFF, 0xFF, 0xFF, 0xFF];
    assert(request@ =~= seq![0xFFu8, 0xFFu8, 0xFFu8, 0xFFu8]);
    request
}

/// The brain took the PIN when the code characteristic reads back exactly the PIN
/// written.
pub fn pin_accepted(pin: &[u8; 4], read: &[u8]) -> (accepted: bool)
    ensures
        accepted == (read@ == pin@),
{
    if read.len() != 4 {
        return false;
    }
    let mut i: usize = 0;
    while i < 4
        invariant
            i <= 4,
            read@.len() == 4,
            pin@.len() == 4,
            forall|j: int| 0 <= j < i ==> read@[j] == pin@[j],
        decreases 4 - i,
    {
        if read[i] != pin[i] {
            assert(read@[i as int] != pin@[i as int]);
            return false;
        }
        i = i + 1;
    }
    assert(read@ =~= pin@);
    true
}

/// The last of the listed characteristics with a role, as the connection keeps it.
pub open spec fn last_with_role(uuids: Seq<u128>, role: CharacteristicRole) -> Option<int>
    decreases uuids.len(),
{
    if uuids.len() == 0 {
        None
    } else if role_of(uuids.last()) == Some(role) {
        Some(uuids.len() - 1)
    } else {
        last_with_role(uuids.drop_last(), role)
    }
}

/// `found` is the index of the last listed characteristic with UUID `uuid`, or `None`
/// where none is listed.
pub open spec fn last_index_of(uuids: Seq<u128>, uuid: u128, found: Option<int>) -> bool {
    match found {
        Some(i) => 0 <= i < uuids.len() && uuids[i] == uuid && forall|j: int|
            i < j < uuids.len() ==> uuids[j] != uuid,
        None => forall|j: int| 0 <= j < uuids.len() ==> uuids[j] != uuid,
    }
}

/// For a role that exactly one UUID has, the last characteristic with the role is the
/// last one listed with that UUID.
proof fn lemma_last_with_role_is_last_uuid(uuids: Seq<u128>, role: CharacteristicRole, uuid: u128)
    requires
        forall|u: u128| (role_of(u) == Some(role)) == (u == uuid),
    ensures
        last_index_of(uuids, uuid, last_with_role(uuids, role)),
    decreases uuids.len(),
{
    if uuids.len() > 0 {
        let front = uuids.drop_last();
        assert((role_of(uuids.last()) == Some(role)) == (uuids.last() == uuid));
        if uuids.last() != uuid {
            lemma_last_with_role_is_last_uuid(front, role, uuid);
            match last_with_role(front, role) {
                Some(i) => {
                    assert(uuids[i] == front[i]);
                    assert forall|j: int| i < j < uuids.len() implies uuids[j] != uuid by {
                        if j < front.len() {
                            assert(uuids[j] == front[j]);
                        }
                    }
                },
                None => {
                    assert forall|j: int| 0 <= j < uuids.len() implies uuids[j] != uuid by {
                        if j < front.len() {
                            assert(uuids[j] == front[j]);
                        }
                    }
                },
            }
        }
    }
}

/// Each role is filled by the brain's characteristic of that name: the data, user and
/// code characteristics picked are the last ones listed with the UUIDs
/// `CHARACTERISTIC_TX_DATA`, `CHARACTERISTIC_RX_DATA`, `CHARACTERISTIC_TX_USER`,
/// `CHARACTERISTIC_RX_USER` and `CHARACTERISTIC_CODE`, and a role stays empty where its
/// UUID is not listed.
pub proof fn lemma_roles_follow_uuids(uuids: Seq<u128>)
    ensures
        last_index_of(uuids, CHARACTERISTIC_TX_DATA, last_with_role(uuids, CharacteristicRole::TxData)),
        last_index_of(uuids, CHARACTERISTIC_RX_DATA, last_with_role(uuids, CharacteristicRole::RxData)),
        last_index_of(uuids, CHARACTERISTIC_TX_USER, last_with_role(uuids, CharacteristicRole::TxUser)),
        last_index_of(uuids, CHARACTERISTIC_RX_USER, last_with_role(uuids, CharacteristicRole::RxUser)),
        last_index_of(uuids, CHARACTERISTIC_CODE, last_with_role(uuids, CharacteristicRole::Code)),
{
    lemma_last_with_role_is_last_uuid(uuids, CharacteristicRole::TxData, CHARACTERISTIC_TX_DATA);
    lemma_last_with_role_is_last_uuid(uuids, CharacteristicRole::RxData, CHARACTERISTIC_RX_DATA);
    lemma_last_with_role_is_last_uuid(uuids, CharacteristicRole::TxUser, CHARACTERISTIC_TX_USER);
    lemma_last_with_role_is_last_uuid(uuids, CharacteristicRole::RxUser, CHARACTERISTIC_RX_USER);
    lemma_last_with_role_is_last_uuid(uuids, CharacteristicRole::Code, CHARACTERISTIC_CODE);
}

/// Which of the listed characteristics the connection uses, by index.
#[derive(Copy, Clone, Debug, PartialEq, Eq, Structural)]
pub struct CharacteristicChoice {
    pub tx_data: Option<usize>,
    pub rx_data: Option<usize>,
    pub tx_user: Option<usize>,
    pub rx_user: Option<usize>,
    pub code: Option<usize>,
}

/// An index as a spec integer.
pub open spec fn index_of(i: Option<usize>) -> Option<int> {
    match i {
        Some(i) => Some(i as int),
        None => None,
    }
}

/// Picks, for each role, the last listed characteristic with it.
pub fn select_characteristics(uuids: &Vec<u128>) -> (choice: CharacteristicChoice)
    ensures
        index_of(choice.tx_data) == last_with_role(uuids@, CharacteristicRole::TxData),
        index_of(choice.rx_data) == last_with_role(uuids@, CharacteristicRole::RxData),
        index_of(choice.tx_user) == last_with_role(uuids@, CharacteristicRole::TxUser),
        index_of(choice.rx_user) == last_with_role(uuids@, CharacteristicRole::RxUser),
        index_of(choice.code) == last_with_role(uuids@, CharacteristicRole::Code),
        last_index_of(uuids@, CHARACTERISTIC_TX_USER, index_of(choice.tx_user)),
        last_index_of(uuids@, CHARACTERISTIC_RX_USER, index_of(choice.rx_user)),
        last_index_of(uuids@, CHARACTERISTIC_TX_DATA, index_of(choice.tx_data)),
        last_index_of(uuids@, CHARACTERISTIC_RX_DATA, index_of(choice.rx_data)),
        last_index_of(uuids@, CHARACTERISTIC_CODE, index_of(choice.code)),
{
    let mut choice = CharacteristicChoice {
        tx_data: None,
        rx_data: None,
        tx_user: None,
        rx_user: None,
        code: None,
    };
    let n = uuids.len();
    let mut i: usize = 0;
    while i < n
        invariant
            i <= n == uuids@.len(),
            index_of(choice.tx_data) == last_with_role(uuids@.take(i as int), CharacteristicRole::TxData),
            index_of(choice.rx_data) == last_with_role(uuids@.take(i as int), CharacteristicRole::RxData),
            index_of(choice.tx_user) == last_with_role(uuids@.take(i as int), CharacteristicRole::TxUser),
            index_of(choice.rx_user) == last_with_role(uuids@.take(i as int), CharacteristicRole::RxUser),
            index_of(choice.code) == last_with_role(uuids@.take(i as int), CharacteristicRole::Code),
        decreases n - i,
    {
        let ghost next = uuids@.take(i + 1);
        assert(next.drop_last() =~= uuids@.take(i as int));
        assert(next.last() == uuids@[i as int]);
        match characteristic_role(uuids[i]) {
            Some(CharacteristicRole::TxData) => choice.tx_data = Some(i),
            Some(CharacteristicRole::RxData) => choice.rx_data = Some(i),
            Some(CharacteristicRole::TxUser) => choice.tx_user = Some(i),
            Some(CharacteristicRole::RxUser) => choice.rx_user = Some(i),
            Some(CharacteristicRole::Code) => choice.code = Some(i),
            None => {},
        }
        i = i + 1;
    }
    assert(uuids@.take(n as int) =~= uuids@);
    proof {
        lemma_roles_follow_uuids(uuids@);
    }
    choice
}

} // verus!
