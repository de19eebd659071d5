//! Message labels and the message-info word that describes an IPC message.
use vstd::prelude::*;
use crate::config::seL4_MsgMaxLength;

verus! {

/// The label of a message, naming the invocation it asks for.
#[derive(Debug, Clone, Copy, PartialEq, Eq, Structural)]
pub enum MessageLabel {
    InvalidInvocation,
    UntypedRetype,
    TCBReadRegisters,
    TCBWriteRegisters,
    TCBCopyRegisters,
    TCBConfigure,
    TCBSetPriority,
    TCBSetMCPriority,
    TCBSetSchedParams,
    TCBSetIPCBuffer,
    TCBSetSpace,
    TCBSuspend,
    TCBResume,
    TCBBindNotification,
    TCBUnbindNotification,
    TCBSetTLSBase,
    CNodeRevoke,
    CNodeDelete,
    CNodeCancelBadgedSends,
    CNodeCopy,
    CNodeMint,
    CNodeMove,
    CNodeMutate,
    CNodeRotate,
    CNodeSaveCaller,
    IRQIssueIRQHandler,
    IRQAckIRQ,
    IRQSetIRQHandler,
    IRQClearIRQHandler,
    DomainSetSet,
    SchedControlConfigureFlags,
    SchedContextBind,
    SchedContextUnbind,
    SchedContextUnbindObject,
    SchedContextConsumed,
    SchedContextYieldTo,
    ARMVSpaceClean_Data,
    ARMVSpaceInvalidate_Data,
    ARMVSpaceCleanInvalidate_Data,
    ARMVSpaceUnify_Instruction,
    ARMSMCCall,
    ARMPageTableMap,
    ARMPageTableUnmap,
    ARMPageMap,
    ARMPageUnmap,
    ARMPageClean_Data,
    ARMPageInvalidate_Data,
    ARMPageCleanInvalidate_Data,
    ARMPageUnify_Instruction,
    ARMPageGetAddress,
    ARMASIDControlMakePool,
    ARMASIDPoolAssign,
    ARMIRQIssueIRQHandlerTrigger,
    nArchInvocationLabels,
}

/// Label number of the last CNode invocation, `CNodeSaveCaller`.
pub const CNODE_LAST_INVOCATION: usize = 24;

/// The word that describes a message: its label, which extra capabilities were unwrapped,
/// how many extra capabilities it carries and its length in words.
#[derive(Debug, Clone, Copy, PartialEq, Eq, Structural)]
pub struct seL4_MessageInfo_t {
    pub label: u64,
    pub capsUnwrapped: u64,
    pub extraCaps: u64,
    pub length: u64,
}

/// The fields fit their widths: 52 bits of label, 3 of unwrapped flags, 2 of extra-capability
/// count and 7 of length.
pub open spec fn message_info_fits(label: u64, caps_unwrapped: u64, extra_caps: u64, length: u64) -> bool {
    &&& label < 0x10_0000_0000_0000
    &&& caps_unwrapped < 8
    &&& extra_caps < 4
    &&& length < 128
}

impl seL4_MessageInfo_t {
    /// A message-info value of the given fields.
    pub fn new(label: u64, capsUnwrapped: u64, extraCaps: u64, length: u64) -> (r: Self)
        requires
            message_info_fits(label, capsUnwrapped, extraCaps, length),
        ensures
            r == (seL4_MessageInfo_t { label, capsUnwrapped, extraCaps, length }),
    {
        seL4_MessageInfo_t { label, capsUnwrapped, extraCaps, length }
    }

    /// Decodes a message-info word, limiting the length to the longest message.
    pub fn from_word_security(w: u64) -> (r: Self)
        ensures
            r.label == w / 4096,
            r.capsUnwrapped == (w / 512) % 8,
            r.extraCaps == (w / 128) % 4,
            r.length == if w % 128 > seL4_MsgMaxLength { seL4_MsgMaxLength as u64 } else { w % 128 },
            message_info_fits(r.label, r.capsUnwrapped, r.extraCaps, r.length),
    {
        let label = w >> 12u64;
        let caps = (w >> 9u64) & 7;
        let extra = (w >> 7u64) & 3;
        let len = w & 0x7f;
        proof {
            assert(label == w / 4096 && label < 0x10_0000_0000_0000) by (bit_vector)
                requires
                    label == w >> 12u64,
            ;
            assert(caps == (w / 512) % 8) by (bit_vector)
                requires
                    caps == (w >> 9u64) & 7,
            ;
            assert(extra == (w / 128) % 4) by (bit_vector)
                requires
                    extra == (w >> 7u64) & 3,
            ;
            assert(len == w % 128) by (bit_vector)
                requires
                    len == w & 0x7f,
            ;
        }
        let length = if len > seL4_MsgMaxLength as u64 {
            seL4_MsgMaxLength as u64
        } else {
            len
        };
        seL4_MessageInfo_t { label, capsUnwrapped: caps, extraCaps: extra, length }
    }

    /// The encoded word: label in bits 12 and up, unwrapped flags in bits 9 to 11, extra
    /// capability count in bits 7 and 8, length in bits 0 to 6.
    pub fn to_word(&self) -> (r: u64)
        requires
            message_info_fits(self.label, self.capsUnwrapped, self.extraCaps, self.length),
        ensures
            r == self.label * 4096 + self.capsUnwrapped * 512 + self.extraCaps * 128 + self.length,
    {
        let label = self.label;
        let caps = self.capsUnwrapped;
        let extra = self.extraCaps;
        let length = self.length;
        let r = (label << 12u64) | (caps << 9u64) | (extra << 7u64) | length;
        proof {
            assert(r == label * 4096 + caps * 512 + extra * 128 + length) by (bit_vector)
                requires
                    label < 0x10_0000_0000_0000,
                    caps < 8,
                    extra < 4,
                    length < 128,
                    r == (label << 12u64) | (caps << 9u64) | (extra << 7u64) | length,
            ;
        }
        r
    }
}

} // verus!
