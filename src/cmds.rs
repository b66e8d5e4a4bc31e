//! The command registry: every record code this library knows, in a fixed
//! order, with the access it allows.
use vstd::prelude::*;

verus! {

/// How a command may be used: queried, set, or both.
#[derive(Debug, Clone, Copy, PartialEq, Eq, Structural)]
pub enum CmdAttributes {
    ReadOnly,
    WriteOnly,
    ReadWrite,
}

/// A command of the registry. Each one has a two-byte wire code and access
/// attributes; the order of declaration is the registry order.
#[allow(non_camel_case_types)]
#[derive(Debug, Clone, Copy, PartialEq, Eq, Structural)]
pub enum Cmd {
    CMD_Model,
    CMD_0002,
    CMD_Name,
    CMD_Switch_MAC,
    CMD_Location,
    CMD_IPv4,
    CMD_Switch_Netmask,
    CMD_Switch_Gateway,
    CMD_Password,
    CMD_Switch_DHCP,
    CMD_000C,
    CMD_FW_Version,
    CMD_FW_Version_2,
    CMD_FW_Active,
    CMD_0014,
    CMD_0C00,
    CMD_1000,
    CMD_2000,
    CMD_3400,
    CMD_4C00,
    CMD_5000,
    CMD_5400,
    CMD_5C00,
    CMD_Port_Count,
    CMD_6400,
    CMD_6800,
    CMD_6C00,
    CMD_7000,
    CMD_7400,
    CMD_7800,
    CMD_7C00,
    CMD_9000,
}

/// Every command of the registry, in registry order.
pub open spec fn registry() -> Seq<Cmd> {
    seq![
        Cmd::CMD_Model,
        Cmd::CMD_0002,
        Cmd::CMD_Name,
        Cmd::CMD_Switch_MAC,
        Cmd::CMD_Location,
        Cmd::CMD_IPv4,
        Cmd::CMD_Switch_Netmask,
        Cmd::CMD_Switch_Gateway,
        Cmd::CMD_Password,
        Cmd::CMD_Switch_DHCP,
        Cmd::CMD_000C,
        Cmd::CMD_FW_Version,
        Cmd::CMD_FW_Version_2,
        Cmd::CMD_FW_Active,
        Cmd::CMD_0014,
        Cmd::CMD_0C00,
        Cmd::CMD_1000,
        Cmd::CMD_2000,
        Cmd::CMD_3400,
        Cmd::CMD_4C00,
        Cmd::CMD_5000,
        Cmd::CMD_5400,
        Cmd::CMD_5C00,
        Cmd::CMD_Port_Count,
        Cmd::CMD_6400,
        Cmd::CMD_6800,
        Cmd::CMD_6C00,
        Cmd::CMD_7000,
        Cmd::CMD_7400,
        Cmd::CMD_7800,
        Cmd::CMD_7C00,
        Cmd::CMD_9000,
    ]
}

/// The commands of the registry that carry the given attributes, in registry order.
pub open spec fn registry_with(flag: CmdAttributes) -> Seq<Cmd> {
    registry().filter(|c: Cmd| c.spec_attributes() == flag)
}

impl Cmd {
    /// The two-byte wire code of the command.
    pub open spec fn spec_code(self) -> (u8, u8) {
        match self {
            Cmd::CMD_Model => (0x00u8, 0x01u8),
            Cmd::CMD_0002 => (0x00u8, 0x02u8),
            Cmd::CMD_Name => (0x00u8, 0x03u8),
            Cmd::CMD_Switch_MAC => (0x00u8, 0x04u8),
            Cmd::CMD_Location => (0x00u8, 0x05u8),
            Cmd::CMD_IPv4 => (0x00u8, 0x06u8),
            Cmd::CMD_Switch_Netmask => (0x00u8, 0x07u8),
            Cmd::CMD_Switch_Gateway => (0x00u8, 0x08u8),
            Cmd::CMD_Password => (0x00u8, 0x0au8),
            Cmd::CMD_Switch_DHCP => (0x00u8, 0x0bu8),
            Cmd::CMD_000C => (0x00u8, 0x0cu8),
            Cmd::CMD_FW_Version => (0x00u8, 0x0du8),
            Cmd::CMD_FW_Version_2 => (0x00u8, 0x0eu8),
            Cmd::CMD_FW_Active => (0x00u8, 0x0fu8),
            Cmd::CMD_0014 => (0x00u8, 0x14u8),
            Cmd::CMD_0C00 => (0x0cu8, 0x00u8),
            Cmd::CMD_1000 => (0x10u8, 0x00u8),
            Cmd::CMD_2000 => (0x20u8, 0x00u8),
            Cmd::CMD_3400 => (0x34u8, 0x00u8),
            Cmd::CMD_4C00 => (0x4cu8, 0x00u8),
            Cmd::CMD_5000 => (0x50u8, 0x00u8),
            Cmd::CMD_5400 => (0x54u8, 0x00u8),
            Cmd::CMD_5C00 => (0x5cu8, 0x00u8),
            Cmd::CMD_Port_Count => (0x60u8, 0x00u8),
            Cmd::CMD_6400 => (0x64u8, 0x00u8),
            Cmd::CMD_6800 => (0x68u8, 0x00u8),
            Cmd::CMD_6C00 => (0x6cu8, 0x00u8),
            Cmd::CMD_7000 => (0x70u8, 0x00u8),
            Cmd::CMD_7400 => (0x74u8, 0x00u8),
            Cmd::CMD_7800 => (0x78u8, 0x00u8),
            Cmd::CMD_7C00 => (0x7cu8, 0x00u8),
            Cmd::CMD_9000 => (0x90u8, 0x00u8),
        }
    }

    /// The access attributes of the command: only the password is write-only.
    pub open spec fn spec_attributes(self) -> CmdAttributes {
        match self {
            Cmd::CMD_Password => CmdAttributes::WriteOnly,
            _ => CmdAttributes::ReadOnly,
        }
    }

    /// The wire code, high byte first.
    pub fn code(&self) -> (r: [u8; 2])
        ensures
            r[0] == self.spec_code().0,
            r[1] == self.spec_code().1,
    {
        match self {
            Cmd::CMD_Model => [0x00, 0x01],
            Cmd::CMD_0002 => [0x00, 0x02],
            Cmd::CMD_Name => [0x00, 0x03],
            Cmd::CMD_Switch_MAC => [0x00, 0x04],
            Cmd::CMD_Location => [0x00, 0x05],
            Cmd::CMD_IPv4 => [0x00, 0x06],
            Cmd::CMD_Switch_Netmask => [0x00, 0x07],
            Cmd::CMD_Switch_Gateway => [0x00, 0x08],
            Cmd::CMD_Password => [0x00, 0x0a],
            Cmd::CMD_Switch_DHCP => [0x00, 0x0b],
            Cmd::CMD_000C => [0x00, 0x0c],
            Cmd::CMD_FW_Version => [0x00, 0x0d],
            Cmd::CMD_FW_Version_2 => [0x00, 0x0e],
            Cmd::CMD_FW_Active => [0x00, 0x0f],
            Cmd::CMD_0014 => [0x00, 0x14],
            Cmd::CMD_0C00 => [0x0c, 0x00],
            Cmd::CMD_1000 => [0x10, 0x00],
            Cmd::CMD_2000 => [0x20, 0x00],
            Cmd::CMD_3400 => [0x34, 0x00],
            Cmd::CMD_4C00 => [0x4c, 0x00],
            Cmd::CMD_5000 => [0x50, 0x00],
            Cmd::CMD_5400 => [0x54, 0x00],
            Cmd::CMD_5C00 => [0x5c, 0x00],
            Cmd::CMD_Port_Count => [0x60, 0x00],
            Cmd::CMD_6400 => [0x64, 0x00],
            Cmd::CMD_6800 => [0x68, 0x00],
            Cmd::CMD_6C00 => [0x6c, 0x00],
            Cmd::CMD_7000 => [0x70, 0x00],
            Cmd::CMD_7400 => [0x74, 0x00],
            Cmd::CMD_7800 => [0x78, 0x00],
            Cmd::CMD_7C00 => [0x7c, 0x00],
            Cmd::CMD_9000 => [0x90, 0x00],
        }
    }

    pub fn attributes(&self) -> (r: CmdAttributes)
        ensures
            r == self.spec_attributes(),
    {
        match self {
            Cmd::CMD_Password => CmdAttributes::WriteOnly,
            _ => CmdAttributes::ReadOnly,
        }
    }

    /// Whether the command is marked with exactly the given attributes.
    pub fn is_flag_set(&self, flag: CmdAttributes) -> (r: bool)
        ensures
            r == (self.spec_attributes() == flag),
    {
        self.attributes() == flag
    }

    /// Every command of the registry, in registry order.
    pub fn all() -> (r: Vec<Cmd>)
        ensures
            r@ == registry(),
    {
        let r: Vec<Cmd> = vec![
            Cmd::CMD_Model,
            Cmd::CMD_0002,
            Cmd::CMD_Name,
            Cmd::CMD_Switch_MAC,
            Cmd::CMD_Location,
            Cmd::CMD_IPv4,
            Cmd::CMD_Switch_Netmask,
            Cmd::CMD_Switch_Gateway,
            Cmd::CMD_Password,
            Cmd::CMD_Switch_DHCP,
            Cmd::CMD_000C,
            Cmd::CMD_FW_Version,
            Cmd::CMD_FW_Version_2,
            Cmd::CMD_FW_Active,
            Cmd::CMD_0014,
            Cmd::CMD_0C00,
            Cmd::CMD_1000,
            Cmd::CMD_2000,
            Cmd::CMD_3400,
            Cmd::CMD_4C00,
            Cmd::CMD_5000,
            Cmd::CMD_5400,
            Cmd::CMD_5C00,
            Cmd::CMD_Port_Count,
            Cmd::CMD_6400,
            Cmd::CMD_6800,
            Cmd::CMD_6C00,
            Cmd::CMD_7000,
            Cmd::CMD_7400,
            Cmd::CMD_7800,
            Cmd::CMD_7C00,
            Cmd::CMD_9000,
        ];
        assert(r@ =~= registry());
        r
    }

    /// The commands of the registry marked with the given attributes, in
    /// registry order.
    pub fn with_attributes(flag: CmdAttributes) -> (r: Vec<Cmd>)
        ensures
            r@ == registry_with(flag),
    {
        let all = Cmd::all();
        let mut r: Vec<Cmd> = Vec::new();
        let mut i: usize = 0;
        while i < all.len()
            invariant
                i <= all@.len(),
                all@ == registry(),
                r@ == all@.take(i as int).filter(|c: Cmd| c.spec_attributes() == flag),
            decreases all@.len() - i,
        {
            let c = all[i];
            proof {
                assert(all@.take(i as int + 1) =~= all@.take(i as int).push(c));
                all@.take(i as int).lemma_filter_push(c, |c: Cmd| c.spec_attributes() == flag);
            }
            if c.is_flag_set(flag) {
                r.push(c);
            }
            i = i + 1;
        }
        assert(all@.take(all@.len() as int) =~= all@);
        r
    }
}

/// No two commands of the registry share a wire code, and the registry lists
/// each command once.
pub proof fn lemma_registry_codes_unique()
    ensures
        registry().no_duplicates(),
        forall|c1: Cmd, c2: Cmd| #[trigger] c1.spec_code() == #[trigger] c2.spec_code() ==> c1 == c2,
{
}

/// The registry lists every command.
pub proof fn lemma_registry_complete(c: Cmd)
    ensures
        registry().contains(c),
{
    match c {
        Cmd::CMD_Model => assert(registry()[0] == c),
        Cmd::CMD_0002 => assert(registry()[1] == c),
        Cmd::CMD_Name => assert(registry()[2] == c),
        Cmd::CMD_Switch_MAC => assert(registry()[3] == c),
        Cmd::CMD_Location => assert(registry()[4] == c),
        Cmd::CMD_IPv4 => assert(registry()[5] == c),
        Cmd::CMD_Switch_Netmask => assert(registry()[6] == c),
        Cmd::CMD_Switch_Gateway => assert(registry()[7] == c),
        Cmd::CMD_Password => assert(registry()[8] == c),
        Cmd::CMD_Switch_DHCP => assert(registry()[9] == c),
        Cmd::CMD_000C => assert(registry()[10] == c),
        Cmd::CMD_FW_Version => assert(registry()[11] == c),
        Cmd::CMD_FW_Version_2 => assert(registry()[12] == c),
        Cmd::CMD_FW_Active => assert(registry()[13] == c),
        Cmd::CMD_0014 => assert(registry()[14] == c),
        Cmd::CMD_0C00 => assert(registry()[15] == c),
        Cmd::CMD_1000 => assert(registry()[16] == c),
        Cmd::CMD_2000 => assert(registry()[17] == c),
        Cmd::CMD_3400 => assert(registry()[18] == c),
        Cmd::CMD_4C00 => assert(registry()[19] == c),
        Cmd::CMD_5000 => assert(registry()[20] == c),
        Cmd::CMD_5400 => assert(registry()[21] == c),
        Cmd::CMD_5C00 => assert(registry()[22] == c),
        Cmd::CMD_Port_Count => assert(registry()[23] == c),
        Cmd::CMD_6400 => assert(registry()[24] == c),
        Cmd::CMD_6800 => assert(registry()[25] == c),
        Cmd::CMD_6C00 => assert(registry()[26] == c),
        Cmd::CMD_7000 => assert(registry()[27] == c),
        Cmd::CMD_7400 => assert(registry()[28] == c),
        Cmd::CMD_7800 => assert(registry()[29] == c),
        Cmd::CMD_7C00 => assert(registry()[30] == c),
        Cmd::CMD_9000 => assert(registry()[31] == c),
    }
}

/// A command stands among those with given attributes exactly when it is
/// marked with them; the registry order plays no part.
pub proof fn lemma_registry_with_exact(flag: CmdAttributes, c: Cmd)
    ensures
        registry_with(flag).contains(c) <==> c.spec_attributes() == flag,
{
    let pred = |x: Cmd| x.spec_attributes() == flag;
    lemma_registry_complete(c);
    if c.spec_attributes() == flag {
        let i = choose|i: int| 0 <= i < registry().len() && registry()[i] == c;
        registry().lemma_filter_contains(pred, i);
    }
    if registry_with(flag).contains(c) {
        let j = choose|j: int| 0 <= j < registry_with(flag).len() && registry_with(flag)[j] == c;
        registry().lemma_filter_pred(pred, j);
    }
}

} // verus!
