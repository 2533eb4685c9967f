//! The helper functions that a program can call, and the ways in which a
//! list of them is written down.

use vstd::prelude::*;

verus! {

/// The helper functions that the VM offers. Each has an ID of its own: the
/// value that a program puts into the immediate of the call instruction.
#[allow(non_camel_case_types)]
#[derive(Debug, Clone, Copy, PartialEq, Eq, Structural)]
pub enum HelperFunctionID {
    // Print/debug helper functions
    BPF_PRINTF_IDX,
    BPF_DEBUG_PRINT_IDX,
    // Memory copy helper functions
    BPF_MEMCPY_IDX,
    // Key/value store functions
    BPF_STORE_LOCAL_IDX,
    BPF_STORE_GLOBAL_IDX,
    BPF_FETCH_LOCAL_IDX,
    BPF_FETCH_GLOBAL_IDX,
    // Saul functions
    BPF_SAUL_REG_FIND_NTH_IDX,
    BPF_SAUL_REG_FIND_TYPE_IDX,
    BPF_SAUL_REG_READ_IDX,
    BPF_SAUL_REG_WRITE_IDX,
    BPF_SAUL_REG_READ_TEMP,
    // (g)coap functions
    BPF_GCOAP_RESP_INIT_IDX,
    BPF_COAP_OPT_FINISH_IDX,
    BPF_COAP_ADD_FORMAT_IDX,
    BPF_COAP_GET_PDU_IDX,
    // Format and string functions
    BPF_STRLEN_IDX,
    BPF_FMT_S16_DFP_IDX,
    BPF_FMT_U32_DEC_IDX,
    // Time(r) functions
    BPF_NOW_MS_IDX,
    // ZTIMER
    BPF_ZTIMER_NOW_IDX,
    BPF_PERIODIC_WAKEUP_IDX,
    // GPIO
    BPF_GPIO_READ_INPUT,
    BPF_GPIO_READ_RAW,
    BPF_GPIO_WRITE,
    // HD44780 LCD
    BPF_HD44780_INIT,
    BPF_HD44780_CLEAR,
    BPF_HD44780_PRINT,
    BPF_HD44780_SET_CURSOR,
    BPF_KEYPAD_GET_INPUT,
}

/// The number of helper functions.
pub const HELPER_COUNT: usize = 30;

/// The ID of a helper function.
pub open spec fn helper_id(helper: HelperFunctionID) -> u8 {
    match helper {
        HelperFunctionID::BPF_PRINTF_IDX => 0x01,
        HelperFunctionID::BPF_DEBUG_PRINT_IDX => 0x03,
        HelperFunctionID::BPF_MEMCPY_IDX => 0x02,
        HelperFunctionID::BPF_STORE_LOCAL_IDX => 0x10,
        HelperFunctionID::BPF_STORE_GLOBAL_IDX => 0x11,
        HelperFunctionID::BPF_FETCH_LOCAL_IDX => 0x12,
        HelperFunctionID::BPF_FETCH_GLOBAL_IDX => 0x13,
        HelperFunctionID::BPF_SAUL_REG_FIND_NTH_IDX => 0x30,
        HelperFunctionID::BPF_SAUL_REG_FIND_TYPE_IDX => 0x31,
        HelperFunctionID::BPF_SAUL_REG_READ_IDX => 0x32,
        HelperFunctionID::BPF_SAUL_REG_WRITE_IDX => 0x33,
        HelperFunctionID::BPF_SAUL_REG_READ_TEMP => 0x34,
        HelperFunctionID::BPF_GCOAP_RESP_INIT_IDX => 0x40,
        HelperFunctionID::BPF_COAP_OPT_FINISH_IDX => 0x41,
        HelperFunctionID::BPF_COAP_ADD_FORMAT_IDX => 0x42,
        HelperFunctionID::BPF_COAP_GET_PDU_IDX => 0x43,
        HelperFunctionID::BPF_STRLEN_IDX => 0x52,
        HelperFunctionID::BPF_FMT_S16_DFP_IDX => 0x50,
        HelperFunctionID::BPF_FMT_U32_DEC_IDX => 0x51,
        HelperFunctionID::BPF_NOW_MS_IDX => 0x20,
        HelperFunctionID::BPF_ZTIMER_NOW_IDX => 0x60,
        HelperFunctionID::BPF_PERIODIC_WAKEUP_IDX => 0x61,
        HelperFunctionID::BPF_GPIO_READ_INPUT => 0x70,
        HelperFunctionID::BPF_GPIO_READ_RAW => 0x71,
        HelperFunctionID::BPF_GPIO_WRITE => 0x72,
        HelperFunctionID::BPF_HD44780_INIT => 0x80,
        HelperFunctionID::BPF_HD44780_CLEAR => 0x81,
        HelperFunctionID::BPF_HD44780_PRINT => 0x82,
        HelperFunctionID::BPF_HD44780_SET_CURSOR => 0x83,
        HelperFunctionID::BPF_KEYPAD_GET_INPUT => 0x84,
    }
}

/// The helper function with the given ID, if there is one.
pub open spec fn helper_with_id(id: u8) -> Option<HelperFunctionID> {
    if id == 0x01 {
        Some(HelperFunctionID::BPF_PRINTF_IDX)
    } else if id == 0x03 {
        Some(HelperFunctionID::BPF_DEBUG_PRINT_IDX)
    } else if id == 0x02 {
        Some(HelperFunctionID::BPF_MEMCPY_IDX)
    } else if id == 0x10 {
        Some(HelperFunctionID::BPF_STORE_LOCAL_IDX)
    } else if id == 0x11 {
        Some(HelperFunctionID::BPF_STORE_GLOBAL_IDX)
    } else if id == 0x12 {
        Some(HelperFunctionID::BPF_FETCH_LOCAL_IDX)
    } else if id == 0x13 {
        Some(HelperFunctionID::BPF_FETCH_GLOBAL_IDX)
    } else if id == 0x30 {
        Some(HelperFunctionID::BPF_SAUL_REG_FIND_NTH_IDX)
    } else if id == 0x31 {
        Some(HelperFunctionID::BPF_SAUL_REG_FIND_TYPE_IDX)
    } else if id == 0x32 {
        Some(HelperFunctionID::BPF_SAUL_REG_READ_IDX)
    } else if id == 0x33 {
        Some(HelperFunctionID::BPF_SAUL_REG_WRITE_IDX)
    } else if id == 0x34 {
        Some(HelperFunctionID::BPF_SAUL_REG_READ_TEMP)
    } else if id == 0x40 {
        Some(HelperFunctionID::BPF_GCOAP_RESP_INIT_IDX)
    } else if id == 0x41 {
        Some(HelperFunctionID::BPF_COAP_OPT_FINISH_IDX)
    } else if id == 0x42 {
        Some(HelperFunctionID::BPF_COAP_ADD_FORMAT_IDX)
    } else if id == 0x43 {
        Some(HelperFunctionID::BPF_COAP_GET_PDU_IDX)
    } else if id == 0x52 {
        Some(HelperFunctionID::BPF_STRLEN_IDX)
    } else if id == 0x50 {
        Some(HelperFunctionID::BPF_FMT_S16_DFP_IDX)
    } else if id == 0x51 {
        Some(HelperFunctionID::BPF_FMT_U32_DEC_IDX)
    } else if id == 0x20 {
        Some(HelperFunctionID::BPF_NOW_MS_IDX)
    } else if id == 0x60 {
        Some(HelperFunctionID::BPF_ZTIMER_NOW_IDX)
    } else if id == 0x61 {
        Some(HelperFunctionID::BPF_PERIODIC_WAKEUP_IDX)
    } else if id == 0x70 {
        Some(HelperFunctionID::BPF_GPIO_READ_INPUT)
    } else if id == 0x71 {
        Some(HelperFunctionID::BPF_GPIO_READ_RAW)
    } else if id == 0x72 {
        Some(HelperFunctionID::BPF_GPIO_WRITE)
    } else if id == 0x80 {
        Some(HelperFunctionID::BPF_HD44780_INIT)
    } else if id == 0x81 {
        Some(HelperFunctionID::BPF_HD44780_CLEAR)
    } else if id == 0x82 {
        Some(HelperFunctionID::BPF_HD44780_PRINT)
    } else if id == 0x83 {
        Some(HelperFunctionID::BPF_HD44780_SET_CURSOR)
    } else if id == 0x84 {
        Some(HelperFunctionID::BPF_KEYPAD_GET_INPUT)
    } else {
        None
    }
}

/// All helper functions, in the order in which they are declared.
pub open spec fn all_helpers() -> Seq<HelperFunctionID> {
    seq![
        HelperFunctionID::BPF_PRINTF_IDX,
        HelperFunctionID::BPF_DEBUG_PRINT_IDX,
        HelperFunctionID::BPF_MEMCPY_IDX,
        HelperFunctionID::BPF_STORE_LOCAL_IDX,
        HelperFunctionID::BPF_STORE_GLOBAL_IDX,
        HelperFunctionID::BPF_FETCH_LOCAL_IDX,
        HelperFunctionID::BPF_FETCH_GLOBAL_IDX,
        HelperFunctionID::BPF_SAUL_REG_FIND_NTH_IDX,
        HelperFunctionID::BPF_SAUL_REG_FIND_TYPE_IDX,
        HelperFunctionID::BPF_SAUL_REG_READ_IDX,
        HelperFunctionID::BPF_SAUL_REG_WRITE_IDX,
        HelperFunctionID::BPF_SAUL_REG_READ_TEMP,
        HelperFunctionID::BPF_GCOAP_RESP_INIT_IDX,
        HelperFunctionID::BPF_COAP_OPT_FINISH_IDX,
        HelperFunctionID::BPF_COAP_ADD_FORMAT_IDX,
        HelperFunctionID::BPF_COAP_GET_PDU_IDX,
        HelperFunctionID::BPF_STRLEN_IDX,
        HelperFunctionID::BPF_FMT_S16_DFP_IDX,
        HelperFunctionID::BPF_FMT_U32_DEC_IDX,
        HelperFunctionID::BPF_NOW_MS_IDX,
        HelperFunctionID::BPF_ZTIMER_NOW_IDX,
        HelperFunctionID::BPF_PERIODIC_WAKEUP_IDX,
        HelperFunctionID::BPF_GPIO_READ_INPUT,
        HelperFunctionID::BPF_GPIO_READ_RAW,
        HelperFunctionID::BPF_GPIO_WRITE,
        HelperFunctionID::BPF_HD44780_INIT,
        HelperFunctionID::BPF_HD44780_CLEAR,
        HelperFunctionID::BPF_HD44780_PRINT,
        HelperFunctionID::BPF_HD44780_SET_CURSOR,
        HelperFunctionID::BPF_KEYPAD_GET_INPUT,
    ]
}

/// A helper function is found again by its ID, and an ID that finds a
/// helper function is the ID of that function: no two helper functions
/// share an ID.
pub proof fn lemma_helper_ids_are_unique(helper: HelperFunctionID, id: u8)
    ensures
        helper_with_id(helper_id(helper)) == Some(helper),
        helper_with_id(id) == Some(helper) <==> helper_id(helper) == id,
{
}

/// Every helper function is in the list of all helper functions.
pub proof fn lemma_all_helpers_is_complete(helper: HelperFunctionID)
    ensures
        all_helpers().len() == HELPER_COUNT,
        all_helpers().contains(helper),
{
    assert(all_helpers()[position_of(helper)] == helper);
}

/// Where a helper function stands in the list of all helper functions.
pub open spec fn position_of(helper: HelperFunctionID) -> int {
    match helper {
        HelperFunctionID::BPF_PRINTF_IDX => 0,
        HelperFunctionID::BPF_DEBUG_PRINT_IDX => 1,
        HelperFunctionID::BPF_MEMCPY_IDX => 2,
        HelperFunctionID::BPF_STORE_LOCAL_IDX => 3,
        HelperFunctionID::BPF_STORE_GLOBAL_IDX => 4,
        HelperFunctionID::BPF_FETCH_LOCAL_IDX => 5,
        HelperFunctionID::BPF_FETCH_GLOBAL_IDX => 6,
        HelperFunctionID::BPF_SAUL_REG_FIND_NTH_IDX => 7,
        HelperFunctionID::BPF_SAUL_REG_FIND_TYPE_IDX => 8,
        HelperFunctionID::BPF_SAUL_REG_READ_IDX => 9,
        HelperFunctionID::BPF_SAUL_REG_WRITE_IDX => 10,
        HelperFunctionID::BPF_SAUL_REG_READ_TEMP => 11,
        HelperFunctionID::BPF_GCOAP_RESP_INIT_IDX => 12,
        HelperFunctionID::BPF_COAP_OPT_FINISH_IDX => 13,
        HelperFunctionID::BPF_COAP_ADD_FORMAT_IDX => 14,
        HelperFunctionID::BPF_COAP_GET_PDU_IDX => 15,
        HelperFunctionID::BPF_STRLEN_IDX => 16,
        HelperFunctionID::BPF_FMT_S16_DFP_IDX => 17,
        HelperFunctionID::BPF_FMT_U32_DEC_IDX => 18,
        HelperFunctionID::BPF_NOW_MS_IDX => 19,
        HelperFunctionID::BPF_ZTIMER_NOW_IDX => 20,
        HelperFunctionID::BPF_PERIODIC_WAKEUP_IDX => 21,
        HelperFunctionID::BPF_GPIO_READ_INPUT => 22,
        HelperFunctionID::BPF_GPIO_READ_RAW => 23,
        HelperFunctionID::BPF_GPIO_WRITE => 24,
        HelperFunctionID::BPF_HD44780_INIT => 25,
        HelperFunctionID::BPF_HD44780_CLEAR => 26,
        HelperFunctionID::BPF_HD44780_PRINT => 27,
        HelperFunctionID::BPF_HD44780_SET_CURSOR => 28,
        HelperFunctionID::BPF_KEYPAD_GET_INPUT => 29,
    }
}

impl HelperFunctionID {
    /// The ID of the helper function.
    pub fn id(&self) -> (r: u8)
        ensures
            r == helper_id(*self),
    {
        match self {
            HelperFunctionID::BPF_PRINTF_IDX => 0x01,
            HelperFunctionID::BPF_DEBUG_PRINT_IDX => 0x03,
            HelperFunctionID::BPF_MEMCPY_IDX => 0x02,
            HelperFunctionID::BPF_STORE_LOCAL_IDX => 0x10,
            HelperFunctionID::BPF_STORE_GLOBAL_IDX => 0x11,
            HelperFunctionID::BPF_FETCH_LOCAL_IDX => 0x12,
            HelperFunctionID::BPF_FETCH_GLOBAL_IDX => 0x13,
            HelperFunctionID::BPF_SAUL_REG_FIND_NTH_IDX => 0x30,
            HelperFunctionID::BPF_SAUL_REG_FIND_TYPE_IDX => 0x31,
            HelperFunctionID::BPF_SAUL_REG_READ_IDX => 0x32,
            HelperFunctionID::BPF_SAUL_REG_WRITE_IDX => 0x33,
            HelperFunctionID::BPF_SAUL_REG_READ_TEMP => 0x34,
            HelperFunctionID::BPF_GCOAP_RESP_INIT_IDX => 0x40,
            HelperFunctionID::BPF_COAP_OPT_FINISH_IDX => 0x41,
            HelperFunctionID::BPF_COAP_ADD_FORMAT_IDX => 0x42,
            HelperFunctionID::BPF_COAP_GET_PDU_IDX => 0x43,
            HelperFunctionID::BPF_STRLEN_IDX => 0x52,
            HelperFunctionID::BPF_FMT_S16_DFP_IDX => 0x50,
            HelperFunctionID::BPF_FMT_U32_DEC_IDX => 0x51,
            HelperFunctionID::BPF_NOW_MS_IDX => 0x20,
            HelperFunctionID::BPF_ZTIMER_NOW_IDX => 0x60,
            HelperFunctionID::BPF_PERIODIC_WAKEUP_IDX => 0x61,
            HelperFunctionID::BPF_GPIO_READ_INPUT => 0x70,
            HelperFunctionID::BPF_GPIO_READ_RAW => 0x71,
            HelperFunctionID::BPF_GPIO_WRITE => 0x72,
            HelperFunctionID::BPF_HD44780_INIT => 0x80,
            HelperFunctionID::BPF_HD44780_CLEAR => 0x81,
            HelperFunctionID::BPF_HD44780_PRINT => 0x82,
            HelperFunctionID::BPF_HD44780_SET_CURSOR => 0x83,
            HelperFunctionID::BPF_KEYPAD_GET_INPUT => 0x84,
        }
    }

    /// The helper function with the given ID, if there is one.
    pub fn from_u8(id: u8) -> (r: Option<HelperFunctionID>)
        ensures
            r == helper_with_id(id),
    {
        if id == 0x01 {
            Some(HelperFunctionID::BPF_PRINTF_IDX)
        } else if id == 0x03 {
            Some(HelperFunctionID::BPF_DEBUG_PRINT_IDX)
        } else if id == 0x02 {
            Some(HelperFunctionID::BPF_MEMCPY_IDX)
        } else if id == 0x10 {
            Some(HelperFunctionID::BPF_STORE_LOCAL_IDX)
        } else if id == 0x11 {
            Some(HelperFunctionID::BPF_STORE_GLOBAL_IDX)
        } else if id == 0x12 {
            Some(HelperFunctionID::BPF_FETCH_LOCAL_IDX)
        } else if id == 0x13 {
            Some(HelperFunctionID::BPF_FETCH_GLOBAL_IDX)
        } else if id == 0x30 {
            Some(HelperFunctionID::BPF_SAUL_REG_FIND_NTH_IDX)
        } else if id == 0x31 {
            Some(HelperFunctionID::BPF_SAUL_REG_FIND_TYPE_IDX)
        } else if id == 0x32 {
            Some(HelperFunctionID::BPF_SAUL_REG_READ_IDX)
        } else if id == 0x33 {
            Some(HelperFunctionID::BPF_SAUL_REG_WRITE_IDX)
        } else if id == 0x34 {
            Some(HelperFunctionID::BPF_SAUL_REG_READ_TEMP)
        } else if id == 0x40 {
            Some(HelperFunctionID::BPF_GCOAP_RESP_INIT_IDX)
        } else if id == 0x41 {
            Some(HelperFunctionID::BPF_COAP_OPT_FINISH_IDX)
        } else if id == 0x42 {
            Some(HelperFunctionID::BPF_COAP_ADD_FORMAT_IDX)
        } else if id == 0x43 {
            Some(HelperFunctionID::BPF_COAP_GET_PDU_IDX)
        } else if id == 0x52 {
            Some(HelperFunctionID::BPF_STRLEN_IDX)
        } else if id == 0x50 {
            Some(HelperFunctionID::BPF_FMT_S16_DFP_IDX)
        } else if id == 0x51 {
            Some(HelperFunctionID::BPF_FMT_U32_DEC_IDX)
        } else if id == 0x20 {
            Some(HelperFunctionID::BPF_NOW_MS_IDX)
        } else if id == 0x60 {
            Some(HelperFunctionID::BPF_ZTIMER_NOW_IDX)
        } else if id == 0x61 {
            Some(HelperFunctionID::BPF_PERIODIC_WAKEUP_IDX)
        } else if id == 0x70 {
            Some(HelperFunctionID::BPF_GPIO_READ_INPUT)
        } else if id == 0x71 {
            Some(HelperFunctionID::BPF_GPIO_READ_RAW)
        } else if id == 0x72 {
            Some(HelperFunctionID::BPF_GPIO_WRITE)
        } else if id == 0x80 {
            Some(HelperFunctionID::BPF_HD44780_INIT)
        } else if id == 0x81 {
            Some(HelperFunctionID::BPF_HD44780_CLEAR)
        } else if id == 0x82 {
            Some(HelperFunctionID::BPF_HD44780_PRINT)
        } else if id == 0x83 {
            Some(HelperFunctionID::BPF_HD44780_SET_CURSOR)
        } else if id == 0x84 {
            Some(HelperFunctionID::BPF_KEYPAD_GET_INPUT)
        } else {
            None
        }
    }

    /// All helper functions, in the order in which they are declared.
    pub fn all() -> (r: Vec<HelperFunctionID>)
        ensures
            r@ == all_helpers(),
    {
        let mut out: Vec<HelperFunctionID> = Vec::new();
        out.push(HelperFunctionID::BPF_PRINTF_IDX);
        out.push(HelperFunctionID::BPF_DEBUG_PRINT_IDX);
        out.push(HelperFunctionID::BPF_MEMCPY_IDX);
        out.push(HelperFunctionID::BPF_STORE_LOCAL_IDX);
        out.push(HelperFunctionID::BPF_STORE_GLOBAL_IDX);
        out.push(HelperFunctionID::BPF_FETCH_LOCAL_IDX);
        out.push(HelperFunctionID::BPF_FETCH_GLOBAL_IDX);
        out.push(HelperFunctionID::BPF_SAUL_REG_FIND_NTH_IDX);
        out.push(HelperFunctionID::BPF_SAUL_REG_FIND_TYPE_IDX);
        out.push(HelperFunctionID::BPF_SAUL_REG_READ_IDX);
        out.push(HelperFunctionID::BPF_SAUL_REG_WRITE_IDX);
        out.push(HelperFunctionID::BPF_SAUL_REG_READ_TEMP);
        out.push(HelperFunctionID::BPF_GCOAP_RESP_INIT_IDX);
        out.push(HelperFunctionID::BPF_COAP_OPT_FINISH_IDX);
        out.push(HelperFunctionID::BPF_COAP_ADD_FORMAT_IDX);
        out.push(HelperFunctionID::BPF_COAP_GET_PDU_IDX);
        out.push(HelperFunctionID::BPF_STRLEN_IDX);
        out.push(HelperFunctionID::BPF_FMT_S16_DFP_IDX);
        out.push(HelperFunctionID::BPF_FMT_U32_DEC_IDX);
        out.push(HelperFunctionID::BPF_NOW_MS_IDX);
        out.push(HelperFunctionID::BPF_ZTIMER_NOW_IDX);
        out.push(HelperFunctionID::BPF_PERIODIC_WAKEUP_IDX);
        out.push(HelperFunctionID::BPF_GPIO_READ_INPUT);
        out.push(HelperFunctionID::BPF_GPIO_READ_RAW);
        out.push(HelperFunctionID::BPF_GPIO_WRITE);
        out.push(HelperFunctionID::BPF_HD44780_INIT);
        out.push(HelperFunctionID::BPF_HD44780_CLEAR);
        out.push(HelperFunctionID::BPF_HD44780_PRINT);
        out.push(HelperFunctionID::BPF_HD44780_SET_CURSOR);
        out.push(HelperFunctionID::BPF_KEYPAD_GET_INPUT);
        assert(out@ =~= all_helpers());
        out
    }
}

/// The IDs among `ids` that name a helper function, in order, each as the
/// helper function it names.
pub open spec fn known_helpers(ids: Seq<u8>) -> Seq<HelperFunctionID>
    decreases ids.len(),
{
    if ids.len() == 0 {
        Seq::empty()
    } else if helper_with_id(ids.last()) is Some {
        known_helpers(ids.drop_last()).push(helper_with_id(ids.last())->0)
    } else {
        known_helpers(ids.drop_last())
    }
}

/// The helper functions that a list of IDs allows: all of them where the
/// list is empty, otherwise those that the list names.
pub open spec fn allowed_helpers(ids: Seq<u8>) -> Seq<HelperFunctionID> {
    if ids.len() == 0 {
        all_helpers()
    } else {
        known_helpers(ids)
    }
}

/// The helper functions that `ids` names, in the order of `ids`; an ID that
/// names none is dropped.
pub fn helpers_with_ids(ids: &[u8]) -> (r: Vec<HelperFunctionID>)
    ensures
        r@ == known_helpers(ids@),
{
    let mut out: Vec<HelperFunctionID> = Vec::new();
    let mut i: usize = 0;
    while i < ids.len()
        invariant
            i <= ids.len(),
            out@ == known_helpers(ids@.take(i as int)),
        decreases ids.len() - i,
    {
        assert(ids@.take(i + 1).drop_last() == ids@.take(i as int));
        if let Some(helper) = HelperFunctionID::from_u8(ids[i]) {
            out.push(helper);
        }
        i += 1;
    }
    assert(ids@.take(i as int) == ids@);
    out
}

/// The helper functions that a request allows: where it names none, all of
/// them; otherwise those that it names.
pub fn select_helpers(ids: &[u8]) -> (r: Vec<HelperFunctionID>)
    ensures
        r@ == allowed_helpers(ids@),
{
    if ids.len() == 0 {
        HelperFunctionID::all()
    } else {
        helpers_with_ids(ids)
    }
}

/// Bit `bit` of the bitmap is set.
pub open spec fn bitmap_has(bitmap: Seq<u8>, bit: int) -> bool {
    (bitmap[bit / 8] >> (bit % 8) as u8) & 1 == 1
}

/// The bitmap of the available helpers: bit `i` of the 24 bits, counted
/// from the lowest bit of the first byte, is set exactly if `i` is among the
/// indices.
pub fn encode(available_indices: &[u8]) -> (r: [u8; 3])
    requires
        forall|k: int| 0 <= k < available_indices@.len() ==> available_indices@[k] < 24,
    ensures
        forall|bit: int|
            0 <= bit < 24 ==> (#[trigger] bitmap_has(r@, bit) <==> available_indices@.contains(
                bit as u8,
            )),
{
    let mut encoding: [u8; 3] = [0, 0, 0];
    let mut k: usize = 0;
    assert forall|bit: int| 0 <= bit < 24 implies !#[trigger] bitmap_has(encoding@, bit) by {
        let shift = (bit % 8) as u8;
        assert((0u8 >> shift) & 1 == 0) by (bit_vector);
    }
    while k < available_indices.len()
        invariant
            k <= available_indices.len(),
            forall|j: int| 0 <= j < available_indices@.len() ==> available_indices@[j] < 24,
            forall|bit: int|
                0 <= bit < 24 ==> (#[trigger] bitmap_has(encoding@, bit)
                    <==> available_indices@.take(k as int).contains(bit as u8)),
        decreases available_indices.len() - k,
    {
        let index: u8 = available_indices[k];
        let bucket: usize = (index / 8) as usize;
        let shift: u8 = index % 8;
        let before: u8 = encoding[bucket];
        let ghost old_bitmap = encoding@;
        let after: u8 = before | (1u8 << shift);
        encoding[bucket] = after;
        proof {
            let taken = available_indices@.take(k as int);
            let next = available_indices@.take(k + 1);
            assert(next == taken.push(index));
            assert forall|bit: int| 0 <= bit < 24 implies (#[trigger] bitmap_has(encoding@, bit)
                <==> next.contains(bit as u8)) by {
                let s = (bit % 8) as u8;
                assert(bitmap_has(old_bitmap, bit) <==> taken.contains(bit as u8));
                if bit / 8 == bucket {
                    assert(((before | (1u8 << shift)) >> s) & 1 == 1 <==> ((before >> s) & 1 == 1
                        || s == shift)) by (bit_vector)
                        requires
                            s < 8,
                            shift < 8,
                    ;
                }
                if next.contains(bit as u8) {
                    let j = choose|j: int| 0 <= j < next.len() && next[j] == bit as u8;
                    if j < k {
                        assert(taken[j] == bit as u8);
                    }
                } else {
                    assert(next[k as int] == index);
                    if taken.contains(bit as u8) {
                        let j = choose|j: int| 0 <= j < taken.len() && taken[j] == bit as u8;
                        assert(next[j] == bit as u8);
                    }
                }
            }
        }
        k += 1;
    }
    assert(available_indices@.take(k as int) == available_indices@);
    encoding
}

/// The message that asks the device to execute a program: the encoded
/// configuration of the VM, and the bitmap of the helper functions that the
/// program may call.
#[derive(Debug, Clone, Copy, PartialEq, Eq)]
pub struct VMExecutionRequestMsg {
    pub configuration: u8,
    pub available_helpers: [u8; 3],
}

impl VMExecutionRequestMsg {
    /// The message for the given configuration and the helpers with the
    /// given indices.
    pub fn new(configuration: u8, helper_indices: &[u8]) -> (r: Self)
        requires
            forall|k: int| 0 <= k < helper_indices@.len() ==> helper_indices@[k] < 24,
        ensures
            r.configuration == configuration,
            forall|bit: int|
                0 <= bit < 24 ==> (#[trigger] bitmap_has(r.available_helpers@, bit)
                    <==> helper_indices@.contains(bit as u8)),
    {
        VMExecutionRequestMsg { configuration, available_helpers: encode(helper_indices) }
    }
}

} // verus!
