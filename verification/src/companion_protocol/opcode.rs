//! Names of the server and client opcodes.

use vstd::prelude::*;

verus! {

/// Known server-to-client opcodes.
#[derive(Debug, Clone, Copy, PartialEq, Eq, Hash)]
pub enum ServerOpcode {
    Die,
    Revive,
    Attack,
    CharInfo,
    UserInfo,
    DeleteObject,
    ItemAction,
    GetItem,
    StatusUpdate,
    CharSelectInfo,
    NpcInfo,
    ItemList,
    TargetSelected,
    TargetUnselected,
    AutoAttackStart,
    AutoAttackStop,
    ChangeMoveType,
    ChangeWaitType,
    StopMove,
    MagicSkillUse,
    MagicSkillCanceled,
    CreatureSay,
    EquipUpdate,
    SkillList,
    SystemMessage,
    RestartResponse,
    MoveToLocation,
    ValidateLocation,
    PartySmallWindowAll,
    PartySmallWindowAdd,
    PartySmallWindowDelete,
    PartySmallWindowUpdate,
    KeyPacket,
    Unknown(u8),
}

/// Known client-to-server opcodes.
#[derive(Debug, Clone, Copy, PartialEq, Eq, Hash)]
pub enum ClientOpcode {
    ProtocolVersion,
    AuthLogin,
    CharacterSelect,
    RequestEnterWorld,
    RequestRestart,
    Action,
    MoveBackwardToLocation,
    UseItem,
    Say2,
    Unknown(u8),
}

/// The name of a server opcode.
pub open spec fn server_opcode_of(op: u8) -> ServerOpcode {
    if op == 0x00 {
        ServerOpcode::Die
    } else if op == 0x01 {
        ServerOpcode::MoveToLocation
    } else if op == 0x03 {
        ServerOpcode::CharInfo
    } else if op == 0x04 {
        ServerOpcode::UserInfo
    } else if op == 0x05 {
        ServerOpcode::Attack
    } else if op == 0x08 {
        ServerOpcode::DeleteObject
    } else if op == 0x09 || op == 0x1f {
        ServerOpcode::CharSelectInfo
    } else if op == 0x0c {
        ServerOpcode::ItemAction
    } else if op == 0x0d {
        ServerOpcode::GetItem
    } else if op == 0x0e {
        ServerOpcode::StatusUpdate
    } else if op == 0x16 {
        ServerOpcode::NpcInfo
    } else if op == 0x1b {
        ServerOpcode::ItemList
    } else if op == 0x23 {
        ServerOpcode::TargetSelected
    } else if op == 0x24 {
        ServerOpcode::TargetUnselected
    } else if op == 0x25 {
        ServerOpcode::AutoAttackStart
    } else if op == 0x26 {
        ServerOpcode::AutoAttackStop
    } else if op == 0x28 {
        ServerOpcode::ChangeMoveType
    } else if op == 0x29 {
        ServerOpcode::ChangeWaitType
    } else if op == 0x47 {
        ServerOpcode::StopMove
    } else if op == 0x48 {
        ServerOpcode::MagicSkillUse
    } else if op == 0x49 {
        ServerOpcode::MagicSkillCanceled
    } else if op == 0x4a {
        ServerOpcode::CreatureSay
    } else if op == 0x4b {
        ServerOpcode::EquipUpdate
    } else if op == 0x4e {
        ServerOpcode::PartySmallWindowAll
    } else if op == 0x4f {
        ServerOpcode::PartySmallWindowAdd
    } else if op == 0x50 {
        ServerOpcode::PartySmallWindowDelete
    } else if op == 0x51 {
        ServerOpcode::PartySmallWindowUpdate
    } else if op == 0x58 {
        ServerOpcode::SkillList
    } else if op == 0x61 {
        ServerOpcode::ValidateLocation
    } else if op == 0x64 {
        ServerOpcode::SystemMessage
    } else if op == 0x6f {
        ServerOpcode::RestartResponse
    } else {
        ServerOpcode::Unknown(op)
    }
}

/// The name of a client opcode.
pub open spec fn client_opcode_of(op: u8) -> ClientOpcode {
    if op == 0x00 {
        ClientOpcode::ProtocolVersion
    } else if op == 0x08 || op == 0x2b {
        ClientOpcode::AuthLogin
    } else if op == 0x0d {
        ClientOpcode::CharacterSelect
    } else if op == 0x03 {
        ClientOpcode::RequestEnterWorld
    } else if op == 0x04 {
        ClientOpcode::Action
    } else if op == 0x0f {
        ClientOpcode::MoveBackwardToLocation
    } else if op == 0x19 {
        ClientOpcode::UseItem
    } else if op == 0x49 {
        ClientOpcode::Say2
    } else {
        ClientOpcode::Unknown(op)
    }
}

impl ServerOpcode {
    /// The name of a server opcode.
    pub fn from_byte(op: u8) -> (r: ServerOpcode)
        ensures
            r == server_opcode_of(op),
    {
        match op {
            0x00 => ServerOpcode::Die,
            0x01 => ServerOpcode::MoveToLocation,
            0x03 => ServerOpcode::CharInfo,
            0x04 => ServerOpcode::UserInfo,
            0x05 => ServerOpcode::Attack,
            0x08 => ServerOpcode::DeleteObject,
            0x09 => ServerOpcode::CharSelectInfo,
            0x0c => ServerOpcode::ItemAction,
            0x0d => ServerOpcode::GetItem,
            0x0e => ServerOpcode::StatusUpdate,
            0x16 => ServerOpcode::NpcInfo,
            0x1b => ServerOpcode::ItemList,
            0x1f => ServerOpcode::CharSelectInfo,
            0x23 => ServerOpcode::TargetSelected,
            0x24 => ServerOpcode::TargetUnselected,
            0x25 => ServerOpcode::AutoAttackStart,
            0x26 => ServerOpcode::AutoAttackStop,
            0x28 => ServerOpcode::ChangeMoveType,
            0x29 => ServerOpcode::ChangeWaitType,
            0x47 => ServerOpcode::StopMove,
            0x48 => ServerOpcode::MagicSkillUse,
            0x49 => ServerOpcode::MagicSkillCanceled,
            0x4a => ServerOpcode::CreatureSay,
            0x4b => ServerOpcode::EquipUpdate,
            0x4e => ServerOpcode::PartySmallWindowAll,
            0x4f => ServerOpcode::PartySmallWindowAdd,
            0x50 => ServerOpcode::PartySmallWindowDelete,
            0x51 => ServerOpcode::PartySmallWindowUpdate,
            0x58 => ServerOpcode::SkillList,
            0x61 => ServerOpcode::ValidateLocation,
            0x64 => ServerOpcode::SystemMessage,
            0x6f => ServerOpcode::RestartResponse,
            other => ServerOpcode::Unknown(other),
        }
    }
}

impl From<u8> for ServerOpcode {
    fn from(op: u8) -> (r: ServerOpcode) {
        ServerOpcode::from_byte(op)
    }
}

impl vstd::std_specs::convert::FromSpecImpl<u8> for ServerOpcode {
    open spec fn obeys_from_spec() -> bool {
        true
    }

    open spec fn from_spec(op: u8) -> ServerOpcode {
        server_opcode_of(op)
    }
}

impl ClientOpcode {
    /// The name of a client opcode.
    pub fn from_byte(op: u8) -> (r: ClientOpcode)
        ensures
            r == client_opcode_of(op),
    {
        match op {
            0x00 => ClientOpcode::ProtocolVersion,
            0x08 => ClientOpcode::AuthLogin,
            0x0d => ClientOpcode::CharacterSelect,
            0x03 => ClientOpcode::RequestEnterWorld,
            0x2b => ClientOpcode::AuthLogin,
            0x04 => ClientOpcode::Action,
            0x0f => ClientOpcode::MoveBackwardToLocation,
            0x19 => ClientOpcode::UseItem,
            0x49 => ClientOpcode::Say2,
            other => ClientOpcode::Unknown(other),
        }
    }
}

impl From<u8> for ClientOpcode {
    fn from(op: u8) -> (r: ClientOpcode) {
        ClientOpcode::from_byte(op)
    }
}

impl vstd::std_specs::convert::FromSpecImpl<u8> for ClientOpcode {
    open spec fn obeys_from_spec() -> bool {
        true
    }

    open spec fn from_spec(op: u8) -> ClientOpcode {
        client_opcode_of(op)
    }
}

} // verus!
