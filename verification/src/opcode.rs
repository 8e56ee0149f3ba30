use vstd::prelude::*;

verus! {

/// The instructions of the virtual machine, one byte each in a chunk's code.
/// The byte of each instruction is its position in this list (see [`opcode_byte`]).
#[derive(Clone, Copy, Debug, PartialEq, Eq, Structural)]
pub enum Opcode {
    Constant,
    Nil,
    IConst0,
    IConst1,
    IConst2,
    IConst3,
    IConst4,
    IAdd,
    ISub,
    IMul,
    IDiv,
    FAdd,
    FSub,
    FMul,
    FDiv,
    IMod,
    FMod,
    I2F,
    F2I,
    Invert,
    StrConcat,
    T,
    F,
    And,
    Or,
    Negate,
    Coalesce,
    LT,
    LTE,
    GT,
    GTE,
    Eq,
    Neq,
    OptMk,
    MapMk,
    MapLoad,
    ArrMk,
    ArrLoad,
    ArrSlc,
    GStore,
    LStore0,
    LStore1,
    LStore2,
    LStore3,
    LStore4,
    LStore,
    UStore0,
    UStore1,
    UStore2,
    UStore3,
    UStore4,
    UStore,
    GLoad,
    LLoad0,
    LLoad1,
    LLoad2,
    LLoad3,
    LLoad4,
    LLoad,
    ULoad0,
    ULoad1,
    ULoad2,
    ULoad3,
    ULoad4,
    ULoad,
    Jump,
    JumpIfF,
    JumpB,
    Invoke,
    ClosureMk,
    CloseUpvalue,
    CloseUpvalueAndPop,
    Pop,
    PopN,
    Return,
}

/// The byte that encodes an instruction: its position in the declaration of [`Opcode`].
pub open spec fn opcode_byte(op: Opcode) -> u8 {
    match op {
        Opcode::Constant => 0u8,
        Opcode::Nil => 1u8,
        Opcode::IConst0 => 2u8,
        Opcode::IConst1 => 3u8,
        Opcode::IConst2 => 4u8,
        Opcode::IConst3 => 5u8,
        Opcode::IConst4 => 6u8,
        Opcode::IAdd => 7u8,
        Opcode::ISub => 8u8,
        Opcode::IMul => 9u8,
        Opcode::IDiv => 10u8,
        Opcode::FAdd => 11u8,
        Opcode::FSub => 12u8,
        Opcode::FMul => 13u8,
        Opcode::FDiv => 14u8,
        Opcode::IMod => 15u8,
        Opcode::FMod => 16u8,
        Opcode::I2F => 17u8,
        Opcode::F2I => 18u8,
        Opcode::Invert => 19u8,
        Opcode::StrConcat => 20u8,
        Opcode::T => 21u8,
        Opcode::F => 22u8,
        Opcode::And => 23u8,
        Opcode::Or => 24u8,
        Opcode::Negate => 25u8,
        Opcode::Coalesce => 26u8,
        Opcode::LT => 27u8,
        Opcode::LTE => 28u8,
        Opcode::GT => 29u8,
        Opcode::GTE => 30u8,
        Opcode::Eq => 31u8,
        Opcode::Neq => 32u8,
        Opcode::OptMk => 33u8,
        Opcode::MapMk => 34u8,
        Opcode::MapLoad => 35u8,
        Opcode::ArrMk => 36u8,
        Opcode::ArrLoad => 37u8,
        Opcode::ArrSlc => 38u8,
        Opcode::GStore => 39u8,
        Opcode::LStore0 => 40u8,
        Opcode::LStore1 => 41u8,
        Opcode::LStore2 => 42u8,
        Opcode::LStore3 => 43u8,
        Opcode::LStore4 => 44u8,
        Opcode::LStore => 45u8,
        Opcode::UStore0 => 46u8,
        Opcode::UStore1 => 47u8,
        Opcode::UStore2 => 48u8,
        Opcode::UStore3 => 49u8,
        Opcode::UStore4 => 50u8,
        Opcode::UStore => 51u8,
        Opcode::GLoad => 52u8,
        Opcode::LLoad0 => 53u8,
        Opcode::LLoad1 => 54u8,
        Opcode::LLoad2 => 55u8,
        Opcode::LLoad3 => 56u8,
        Opcode::LLoad4 => 57u8,
        Opcode::LLoad => 58u8,
        Opcode::ULoad0 => 59u8,
        Opcode::ULoad1 => 60u8,
        Opcode::ULoad2 => 61u8,
        Opcode::ULoad3 => 62u8,
        Opcode::ULoad4 => 63u8,
        Opcode::ULoad => 64u8,
        Opcode::Jump => 65u8,
        Opcode::JumpIfF => 66u8,
        Opcode::JumpB => 67u8,
        Opcode::Invoke => 68u8,
        Opcode::ClosureMk => 69u8,
        Opcode::CloseUpvalue => 70u8,
        Opcode::CloseUpvalueAndPop => 71u8,
        Opcode::Pop => 72u8,
        Opcode::PopN => 73u8,
        Opcode::Return => 74u8,
    }
}

/// The instruction that a byte encodes, if it encodes one.
pub open spec fn opcode_of(byte: u8) -> Option<Opcode> {
    match byte {
        0u8 => Some(Opcode::Constant),
        1u8 => Some(Opcode::Nil),
        2u8 => Some(Opcode::IConst0),
        3u8 => Some(Opcode::IConst1),
        4u8 => Some(Opcode::IConst2),
        5u8 => Some(Opcode::IConst3),
        6u8 => Some(Opcode::IConst4),
        7u8 => Some(Opcode::IAdd),
        8u8 => Some(Opcode::ISub),
        9u8 => Some(Opcode::IMul),
        10u8 => Some(Opcode::IDiv),
        11u8 => Some(Opcode::FAdd),
        12u8 => Some(Opcode::FSub),
        13u8 => Some(Opcode::FMul),
        14u8 => Some(Opcode::FDiv),
        15u8 => Some(Opcode::IMod),
        16u8 => Some(Opcode::FMod),
        17u8 => Some(Opcode::I2F),
        18u8 => Some(Opcode::F2I),
        19u8 => Some(Opcode::Invert),
        20u8 => Some(Opcode::StrConcat),
        21u8 => Some(Opcode::T),
        22u8 => Some(Opcode::F),
        23u8 => Some(Opcode::And),
        24u8 => Some(Opcode::Or),
        25u8 => Some(Opcode::Negate),
        26u8 => Some(Opcode::Coalesce),
        27u8 => Some(Opcode::LT),
        28u8 => Some(Opcode::LTE),
        29u8 => Some(Opcode::GT),
        30u8 => Some(Opcode::GTE),
        31u8 => Some(Opcode::Eq),
        32u8 => Some(Opcode::Neq),
        33u8 => Some(Opcode::OptMk),
        34u8 => Some(Opcode::MapMk),
        35u8 => Some(Opcode::MapLoad),
        36u8 => Some(Opcode::ArrMk),
        37u8 => Some(Opcode::ArrLoad),
        38u8 => Some(Opcode::ArrSlc),
        39u8 => Some(Opcode::GStore),
        40u8 => Some(Opcode::LStore0),
        41u8 => Some(Opcode::LStore1),
        42u8 => Some(Opcode::LStore2),
        43u8 => Some(Opcode::LStore3),
        44u8 => Some(Opcode::LStore4),
        45u8 => Some(Opcode::LStore),
        46u8 => Some(Opcode::UStore0),
        47u8 => Some(Opcode::UStore1),
        48u8 => Some(Opcode::UStore2),
        49u8 => Some(Opcode::UStore3),
        50u8 => Some(Opcode::UStore4),
        51u8 => Some(Opcode::UStore),
        52u8 => Some(Opcode::GLoad),
        53u8 => Some(Opcode::LLoad0),
        54u8 => Some(Opcode::LLoad1),
        55u8 => Some(Opcode::LLoad2),
        56u8 => Some(Opcode::LLoad3),
        57u8 => Some(Opcode::LLoad4),
        58u8 => Some(Opcode::LLoad),
        59u8 => Some(Opcode::ULoad0),
        60u8 => Some(Opcode::ULoad1),
        61u8 => Some(Opcode::ULoad2),
        62u8 => Some(Opcode::ULoad3),
        63u8 => Some(Opcode::ULoad4),
        64u8 => Some(Opcode::ULoad),
        65u8 => Some(Opcode::Jump),
        66u8 => Some(Opcode::JumpIfF),
        67u8 => Some(Opcode::JumpB),
        68u8 => Some(Opcode::Invoke),
        69u8 => Some(Opcode::ClosureMk),
        70u8 => Some(Opcode::CloseUpvalue),
        71u8 => Some(Opcode::CloseUpvalueAndPop),
        72u8 => Some(Opcode::Pop),
        73u8 => Some(Opcode::PopN),
        74u8 => Some(Opcode::Return),
        _ => None,
    }
}

/// The largest byte that encodes an instruction.
pub const MAX_OPCODE_BYTE: u8 = 74;

/// How many immediate bytes follow an instruction in the code.
pub open spec fn expected_imms(op: Opcode) -> u8 {
    match op {
        Opcode::Constant | Opcode::Jump | Opcode::JumpIfF | Opcode::JumpB | Opcode::ArrMk | Opcode::MapMk
        | Opcode::LStore | Opcode::UStore | Opcode::PopN | Opcode::LLoad | Opcode::ULoad => 1,
        Opcode::Invoke => 2,
        _ => 0,
    }
}

impl Opcode {
    /// Decodes one byte of code that encodes an instruction (no byte above
    /// [`MAX_OPCODE_BYTE`] does): the instruction whose byte it is.
    pub fn from_byte(byte: u8) -> (res: Opcode)
        requires
            byte <= MAX_OPCODE_BYTE,
        ensures
            opcode_of(byte) == Some(res),
            opcode_byte(res) == byte,
    {
        match byte {
            0 => Opcode::Constant,
            1 => Opcode::Nil,
            2 => Opcode::IConst0,
            3 => Opcode::IConst1,
            4 => Opcode::IConst2,
            5 => Opcode::IConst3,
            6 => Opcode::IConst4,
            7 => Opcode::IAdd,
            8 => Opcode::ISub,
            9 => Opcode::IMul,
            10 => Opcode::IDiv,
            11 => Opcode::FAdd,
            12 => Opcode::FSub,
            13 => Opcode::FMul,
            14 => Opcode::FDiv,
            15 => Opcode::IMod,
            16 => Opcode::FMod,
            17 => Opcode::I2F,
            18 => Opcode::F2I,
            19 => Opcode::Invert,
            20 => Opcode::StrConcat,
            21 => Opcode::T,
            22 => Opcode::F,
            23 => Opcode::And,
            24 => Opcode::Or,
            25 => Opcode::Negate,
            26 => Opcode::Coalesce,
            27 => Opcode::LT,
            28 => Opcode::LTE,
            29 => Opcode::GT,
            30 => Opcode::GTE,
            31 => Opcode::Eq,
            32 => Opcode::Neq,
            33 => Opcode::OptMk,
            34 => Opcode::MapMk,
            35 => Opcode::MapLoad,
            36 => Opcode::ArrMk,
            37 => Opcode::ArrLoad,
            38 => Opcode::ArrSlc,
            39 => Opcode::GStore,
            40 => Opcode::LStore0,
            41 => Opcode::LStore1,
            42 => Opcode::LStore2,
            43 => Opcode::LStore3,
            44 => Opcode::LStore4,
            45 => Opcode::LStore,
            46 => Opcode::UStore0,
            47 => Opcode::UStore1,
            48 => Opcode::UStore2,
            49 => Opcode::UStore3,
            50 => Opcode::UStore4,
            51 => Opcode::UStore,
            52 => Opcode::GLoad,
            53 => Opcode::LLoad0,
            54 => Opcode::LLoad1,
            55 => Opcode::LLoad2,
            56 => Opcode::LLoad3,
            57 => Opcode::LLoad4,
            58 => Opcode::LLoad,
            59 => Opcode::ULoad0,
            60 => Opcode::ULoad1,
            61 => Opcode::ULoad2,
            62 => Opcode::ULoad3,
            63 => Opcode::ULoad4,
            64 => Opcode::ULoad,
            65 => Opcode::Jump,
            66 => Opcode::JumpIfF,
            67 => Opcode::JumpB,
            68 => Opcode::Invoke,
            69 => Opcode::ClosureMk,
            70 => Opcode::CloseUpvalue,
            71 => Opcode::CloseUpvalueAndPop,
            72 => Opcode::Pop,
            73 => Opcode::PopN,
            _ => Opcode::Return,
        }
    }

    /// The number of immediate bytes that follow this instruction in the code.
    pub fn num_expected_imms(&self) -> (n: u8)
        ensures
            n == expected_imms(*self),
    {
        match self {
            Opcode::Constant
            | Opcode::Jump
            | Opcode::JumpIfF
            | Opcode::JumpB
            | Opcode::ArrMk
            | Opcode::MapMk
            | Opcode::LStore
            | Opcode::UStore
            | Opcode::PopN
            | Opcode::LLoad
            | Opcode::ULoad => 1,
            Opcode::Invoke => 2,
            _ => 0,
        }
    }
}

} // verus!
