//! Wire round trips for the remaining message variants, one of each.

use rustyssh::msg::{SSHMsg, MsgServiceRequest, MsgServiceAccept, MsgKexECDHInit, MsgKexECDHReply,
    MsgUserauthRequest, MsgUserauthFailure, MsgUserauthSuccess, MsgUserauthBanner,
    MsgGlobalRequest, MsgRequestSuccess, MsgRequestFailure, MsgChannelOpen,
    MsgChannelOpenConfirmation, MsgChannelOpenFailure, MsgChannelWindowAdjust, MsgChannelData,
    MsgChannelExtendedData, MsgChannelEof, MsgChannelClose, MsgChannelRequest, MsgChannelSuccess,
    MsgChannelFailure, read_next_message};
use rustyssh::codes::ChannelOpenFailureReasonCode;

fn round_trip(msg: SSHMsg) {
    let mut bytes = Vec::new();
    msg.write_ssh(&mut bytes);
    let (back, used) = read_next_message(&bytes, 0).unwrap();
    assert_eq!(back, msg);
    assert_eq!(used, bytes.len());
}

#[test]
fn test_remaining_message_round_trips() {
    round_trip(SSHMsg::ServiceRequest(MsgServiceRequest {
        service_name: "ssh-userauth".to_string(),
    }));
    round_trip(SSHMsg::ServiceAccept(MsgServiceAccept {
        service_name: "ssh-connection".to_string(),
    }));
    round_trip(SSHMsg::KexECDHInit(MsgKexECDHInit { q_c: vec![4, 1, 2, 3] }));
    round_trip(SSHMsg::KexECDHReply(MsgKexECDHReply {
        k_s: vec![1, 2, 3],
        q_s: vec![4, 5],
        signature: vec![6, 7, 8, 9],
    }));
    round_trip(SSHMsg::UserauthRequest(MsgUserauthRequest {
        user_name: "admin".to_string(),
        service_name: "ssh-connection".to_string(),
        method_name: "password".to_string(),
    }));
    round_trip(SSHMsg::UserauthFailure(MsgUserauthFailure {
        authentications_that_can_continue: vec!["password".to_string(), "publickey".to_string()],
        partial_success: false,
    }));
    round_trip(SSHMsg::UserauthSuccess(MsgUserauthSuccess {}));
    round_trip(SSHMsg::UserauthBanner(MsgUserauthBanner {
        message: "welcome".to_string(),
        language_tag: "en".to_string(),
    }));
    round_trip(SSHMsg::GlobalRequest(MsgGlobalRequest {
        request_name: "tcpip-forward".to_string(),
        want_reply: true,
    }));
    round_trip(SSHMsg::RequestSuccess(MsgRequestSuccess { data: vec![0, 0, 0x1F, 0x90] }));
    round_trip(SSHMsg::RequestFailure(MsgRequestFailure {}));
    round_trip(SSHMsg::ChannelOpen(MsgChannelOpen {
        channel_type: "session".to_string(),
        sender_channel: 1,
        initial_window_size: 65536,
        maximum_packet_size: 32768,
    }));
    round_trip(SSHMsg::ChannelOpenConfirmation(MsgChannelOpenConfirmation {
        recipient_channel: 1,
        sender_channel: 0,
        initial_window_size: 2097152,
        maximum_packet_size: 32768,
    }));
    round_trip(SSHMsg::ChannelOpenFailure(MsgChannelOpenFailure {
        recipient_channel: 1,
        reason_code: ChannelOpenFailureReasonCode::UnknownChannelType,
        description: "no such type".to_string(),
        language_tag: "en".to_string(),
    }));
    round_trip(SSHMsg::ChannelWindowAdjust(MsgChannelWindowAdjust {
        recipient_channel: 1,
        bytes_to_add: 1024,
    }));
    round_trip(SSHMsg::ChannelData(MsgChannelData {
        recipient_channel: 1,
        data: b"some output".to_vec(),
    }));
    round_trip(SSHMsg::ChannelExtendedData(MsgChannelExtendedData {
        recipient_channel: 1,
        data_type_code: 1,
        data: b"some error output".to_vec(),
    }));
    round_trip(SSHMsg::ChannelEof(MsgChannelEof { recipient_channel: 1 }));
    round_trip(SSHMsg::ChannelClose(MsgChannelClose { recipient_channel: 1 }));
    round_trip(SSHMsg::ChannelRequest(MsgChannelRequest {
        recipient_channel: 0,
        request_type: "exec".to_string(),
        want_reply: true,
    }));
    round_trip(SSHMsg::ChannelSuccess(MsgChannelSuccess { recipient_channel: 0 }));
    round_trip(SSHMsg::ChannelFailure(MsgChannelFailure { recipient_channel: 0 }));
}

#[test]
fn test_unknown_tag_after_valid_message_position() {
    // Decoding consumes exactly one message; a second decode at the returned
    // position sees the next tag.
    let mut bytes = Vec::new();
    SSHMsg::ChannelEof(MsgChannelEof { recipient_channel: 3 }).write_ssh(&mut bytes);
    SSHMsg::ChannelClose(MsgChannelClose { recipient_channel: 3 }).write_ssh(&mut bytes);
    let (first, p) = read_next_message(&bytes, 0).unwrap();
    assert_eq!(first, SSHMsg::ChannelEof(MsgChannelEof { recipient_channel: 3 }));
    let (second, end) = read_next_message(&bytes, p).unwrap();
    assert_eq!(second, SSHMsg::ChannelClose(MsgChannelClose { recipient_channel: 3 }));
    assert_eq!(end, bytes.len());
}
