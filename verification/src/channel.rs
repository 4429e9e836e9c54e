//! Channel information for the para that is reached over HRMP.

use crate::message::ParaId;
use vstd::prelude::*;

verus! {

/// A para that we have an HRMP channel with.
pub const HRMP_PARA_ID: u32 = 7777;

/// Whether messages can be sent over a channel.
#[derive(Clone, Copy, Debug, PartialEq, Eq, Structural)]
pub enum ChannelStatus {
    /// The channel is closed.
    Closed,
    /// The channel takes no more messages for now.
    Full,
    /// The channel takes messages: up to the first number of bytes in a message and the
    /// second number of bytes in all.
    Ready(usize, usize),
}

/// The limits and the load of a channel.
#[derive(Clone, Copy, Debug, PartialEq, Eq, Structural)]
pub struct ChannelInfo {
    pub max_capacity: u32,
    pub max_total_size: u32,
    pub max_message_size: u32,
    pub msg_count: u32,
    pub total_size: u32,
}

/// Answers for the HRMP para with an open, empty, unlimited channel and defers to the
/// parachain system for every other para.
pub struct MockedChannelInfo;

impl MockedChannelInfo {
    /// The status of the channel to `id`, where `system` is what the parachain system says
    /// of it: always ready without limit for the HRMP para, `system` for any other.
    pub fn get_channel_status(id: ParaId, system: ChannelStatus) -> (status: ChannelStatus)
        ensures
            status == if id.0 == HRMP_PARA_ID {
                ChannelStatus::Ready(usize::MAX, usize::MAX)
            } else {
                system
            },
    {
        if id.0 == HRMP_PARA_ID {
            return ChannelStatus::Ready(usize::MAX, usize::MAX);
        }
        system
    }

    /// The channel to `id`, where `system` is what the parachain system knows of it: an
    /// empty channel with every limit at its maximum for the HRMP para, `system` for any
    /// other.
    pub fn get_channel_info(id: ParaId, system: Option<ChannelInfo>) -> (info: Option<
        ChannelInfo,
    >)
        ensures
            info == if id.0 == HRMP_PARA_ID {
                Some(
                    ChannelInfo {
                        max_capacity: u32::MAX,
                        max_total_size: u32::MAX,
                        max_message_size: u32::MAX,
                        msg_count: 0,
                        total_size: 0,
                    },
                )
            } else {
                system
            },
    {
        if id.0 == HRMP_PARA_ID {
            return Some(
                ChannelInfo {
                    max_capacity: u32::MAX,
                    max_total_size: u32::MAX,
                    max_message_size: u32::MAX,
                    msg_count: 0,
                    total_size: 0,
                },
            );
        }
        system
    }
}

} // verus!
