//! What the written texts name.

use crate::chars::{occurs, stands_at};
use crate::identity::{error_text, kind_text, name_error_text, DisplayNameError, IdentityError};
use crate::probe::IceProbeError;
use crate::product::ProductSessionError;
use crate::quic::QuicTransportError;
use crate::stun::StunDiscoveryError;
use crate::telemetry::{csv_line, json_record, CollectorView, FrameTraceRecord};
use crate::text::{decimal, octal};
use crate::wording::{
    lane_name, outcome_name, probe_text, product_text, quic_text, stun_text, transcript_text,
};
use vstd::prelude::*;

verus! {

pub(crate) broadcast proof fn lemma_found_in_the_front(
    front: Seq<char>,
    back: Seq<char>,
    part: Seq<char>,
)
    requires
        occurs(front, part),
    ensures
        #[trigger] occurs(front + back, part),
{
    let at = choose|at: int| #[trigger] stands_at(front, part, at);
    let whole = front + back;
    assert(whole.subrange(at, at + part.len()) =~= front.subrange(at, at + part.len()));
    assert(stands_at(whole, part, at));
}

pub(crate) broadcast proof fn lemma_found_at_the_end(front: Seq<char>, part: Seq<char>)
    ensures
        #[trigger] occurs(front + part, part),
{
    let whole = front + part;
    assert(whole.subrange(front.len() as int, (front.len() + part.len()) as int) =~= part);
    assert(stands_at(whole, part, front.len() as int));
}

pub(crate) broadcast proof fn lemma_found_across(front: Seq<char>, key: Seq<char>, last: Seq<char>)
    ensures
        #[trigger] occurs(front + key + last, key + last),
{
    lemma_found_at_the_end(front, key + last);
    assert(front + key + last =~= front + (key + last));
}

pub(crate) broadcast proof fn lemma_found_whole(text: Seq<char>)
    ensures
        #[trigger] occurs(text, text),
{
    assert(text.subrange(0, text.len() as int) =~= text);
    assert(stands_at(text, text, 0));
}

/// The text holds the number behind the key.
pub open spec fn says(text: Seq<char>, key: Seq<char>, number: nat) -> bool {
    occurs(text, key + decimal(number))
}

/// Numbers in a row, with commas between them.
pub open spec fn row(numbers: Seq<nat>) -> Seq<char>
    decreases numbers.len(),
{
    if numbers.len() == 0 {
        Seq::empty()
    } else if numbers.len() == 1 {
        decimal(numbers[0])
    } else {
        row(numbers.drop_last()) + (","@ + decimal(numbers.last()))
    }
}

proof fn lemma_row_grows(numbers: Seq<nat>, number: nat)
    requires
        numbers.len() > 0,
    ensures
        row(numbers.push(number)) == row(numbers) + (","@ + decimal(number)),
{
    assert(numbers.push(number).drop_last() =~= numbers);
}

/// A line of the table holds the frame, the four times of the host, the four of
/// the client, the bytes, the datagrams and the recoveries, in this order.
pub proof fn law_table_lines_hold_every_column(record: FrameTraceRecord)
    ensures
        csv_line(record) == row(
            seq![
                record.host.frame_id as nat,
                record.host.capture_done_ns as nat,
                record.host.encode_begin_ns as nat,
                record.host.encode_done_ns as nat,
                record.host.send_ns as nat,
                record.client.receive_ns as nat,
                record.client.decode_begin_ns as nat,
                record.client.decode_done_ns as nat,
                record.client.present_submit_ns as nat,
                record.encoded_bytes as nat,
                record.datagrams as nat,
                record.recovery_count as nat,
            ],
        ) + seq!['\n'],
{
    let r1 = seq![record.host.frame_id as nat];
    let r2 = r1.push(record.host.capture_done_ns as nat);
    let r3 = r2.push(record.host.encode_begin_ns as nat);
    let r4 = r3.push(record.host.encode_done_ns as nat);
    let r5 = r4.push(record.host.send_ns as nat);
    let r6 = r5.push(record.client.receive_ns as nat);
    let r7 = r6.push(record.client.decode_begin_ns as nat);
    let r8 = r7.push(record.client.decode_done_ns as nat);
    let r9 = r8.push(record.client.present_submit_ns as nat);
    let r10 = r9.push(record.encoded_bytes as nat);
    let r11 = r10.push(record.datagrams as nat);
    let r12 = r11.push(record.recovery_count as nat);
    lemma_row_grows(r1, record.host.capture_done_ns as nat);
    lemma_row_grows(r2, record.host.encode_begin_ns as nat);
    lemma_row_grows(r3, record.host.encode_done_ns as nat);
    lemma_row_grows(r4, record.host.send_ns as nat);
    lemma_row_grows(r5, record.client.receive_ns as nat);
    lemma_row_grows(r6, record.client.decode_begin_ns as nat);
    lemma_row_grows(r7, record.client.decode_done_ns as nat);
    lemma_row_grows(r8, record.client.present_submit_ns as nat);
    lemma_row_grows(r9, record.encoded_bytes as nat);
    lemma_row_grows(r10, record.datagrams as nat);
    lemma_row_grows(r11, record.recovery_count as nat);
    reveal_strlit("\n");
    assert("\n"@ =~= seq!['\n']);
    assert(r12 =~= seq![
        record.host.frame_id as nat,
        record.host.capture_done_ns as nat,
        record.host.encode_begin_ns as nat,
        record.host.encode_done_ns as nat,
        record.host.send_ns as nat,
        record.client.receive_ns as nat,
        record.client.decode_begin_ns as nat,
        record.client.decode_done_ns as nat,
        record.client.present_submit_ns as nat,
        record.encoded_bytes as nat,
        record.datagrams as nat,
        record.recovery_count as nat,
    ]);
}

/// A record is written with each of its numbers behind its own key.
pub proof fn law_records_name_every_number(record: FrameTraceRecord)
    ensures
        ({
            let text = json_record(record);
            let host = record.host;
            let client = record.client;
            &&& says(text, "{\"frame_id\":"@, host.frame_id as nat)
            &&& says(text, ",\"host\":{\"capture_done_ns\":"@, host.capture_done_ns as nat)
            &&& says(text, ",\"encode_begin_ns\":"@, host.encode_begin_ns as nat)
            &&& says(text, ",\"encode_done_ns\":"@, host.encode_done_ns as nat)
            &&& says(text, ",\"send_ns\":"@, host.send_ns as nat)
            &&& says(text, "},\"client\":{\"receive_ns\":"@, client.receive_ns as nat)
            &&& says(text, ",\"decode_begin_ns\":"@, client.decode_begin_ns as nat)
            &&& says(text, ",\"decode_done_ns\":"@, client.decode_done_ns as nat)
            &&& says(text, ",\"present_submit_ns\":"@, client.present_submit_ns as nat)
            &&& says(text, "},\"encoded_bytes\":"@, record.encoded_bytes as nat)
            &&& says(text, ",\"datagrams\":"@, record.datagrams as nat)
            &&& says(text, ",\"recovery_count\":"@, record.recovery_count as nat)
        }),
{
    broadcast use {lemma_found_in_the_front, lemma_found_at_the_end, lemma_found_whole};

}

/// Both exports hold the records, and one the counts of what is missing.
pub proof fn law_exports_count_what_is_missing(view: CollectorView)
    ensures
        occurs(view.csv(), crate::telemetry::csv_lines(view.records)),
        occurs(view.json(), crate::telemetry::json_records(view.records)),
        says(view.json(), "],\"rejected\":"@, view.rejected as nat),
        says(view.json(), ",\"evicted\":"@, view.evicted as nat),
{
    broadcast use {lemma_found_in_the_front, lemma_found_at_the_end, lemma_found_whole};

}

// ---------------------------------------------------------------------------
// Errors
// ---------------------------------------------------------------------------
/// An error of a connection names the error that it wraps, or both sides of
/// what did not match, each in its place.
pub proof fn law_connection_errors_name_both_sides(error: QuicTransportError, detail: Seq<char>)
    ensures
        error is Io || error is Connect || error is Connection || error is Read || error is Write
            || error is Protocol ==> occurs(quic_text(error, detail), detail),
        error matches QuicTransportError::ExpiryMismatch { expected, actual } ==> {
            &&& says(
                quic_text(error, detail),
                "media expiry mismatch: expected "@,
                expected as nat,
            )
            &&& says(quic_text(error, detail), ", record carries "@, actual as nat)
        },
        error matches QuicTransportError::StreamKindChanged { expected, actual } ==> {
            &&& occurs(
                quic_text(error, detail),
                "stream kind changed from "@ + lane_name(expected),
            )
            &&& occurs(quic_text(error, detail), " to "@ + lane_name(actual))
        },
{
    broadcast use {
        lemma_found_in_the_front,
        lemma_found_at_the_end,
        lemma_found_across,
        lemma_found_whole,
    };

}

/// An error of a session names the error that it wraps, or each number in its
/// place.
pub proof fn law_session_errors_name_their_numbers(error: ProductSessionError, detail: Seq<char>)
    ensures
        ({
            let text = product_text(error, detail);
            &&& error is Quic || error is Protocol || error is Transport || error is PeerProtocol
                || error is CandidateExchange || error is IceGeneration || error is RouteTransition
                || error is HandshakeTimedOut ==> occurs(text, detail)
            &&& error matches ProductSessionError::RouteEpochTransition {
                expected_current,
                actual_current,
                requested_next,
            } ==> says(text, "route epoch transition expected "@, expected_current as nat) && says(
                text,
                ", found "@,
                actual_current as nat,
            ) && says(text, ", requested "@, requested_next as nat)
            &&& error matches ProductSessionError::DatagramBudgetTooSmall {
                path_max_datagram_bytes,
                outer_header_bytes,
                minimum_inner_datagram_bytes,
            } ==> says(text, "QUIC DATAGRAM limit "@, path_max_datagram_bytes as nat) && says(
                text,
                " cannot reserve "@,
                outer_header_bytes as nat,
            ) && says(text, " bytes and fit the minimum "@, minimum_inner_datagram_bytes as nat)
            &&& error matches ProductSessionError::MediaSendAborted {
                outcome,
                fragments_sent,
                fragments_total,
            } ==> says(text, "media access unit aborted after "@, fragments_sent as nat) && says(
                text,
                "/"@,
                fragments_total as nat,
            ) && occurs(text, outcome_name(outcome))
        }),
{
    broadcast use {
        lemma_found_in_the_front,
        lemma_found_at_the_end,
        lemma_found_across,
        lemma_found_whole,
    };

}

/// A discovery that timed out tells how many requests were sent and how many
/// datagrams were ignored. A socket error names the error that it wraps.
pub proof fn law_discovery_errors_name_their_numbers(error: StunDiscoveryError, detail: Seq<char>)
    ensures
        error is Io ==> occurs(stun_text(error, detail), detail),
        error matches StunDiscoveryError::Timeout { requests_sent, ignored_datagrams } ==> {
            &&& says(
                stun_text(error, detail),
                "STUN discovery timed out after "@,
                requests_sent as nat,
            )
            &&& says(stun_text(error, detail), " request(s) and "@, ignored_datagrams as nat)
        },
{
    broadcast use {
        lemma_found_in_the_front,
        lemma_found_at_the_end,
        lemma_found_across,
        lemma_found_whole,
    };

}

/// A probe that reached another address names that one first and then the one
/// that was nominated. Other errors name what they wrap.
pub proof fn law_probe_errors_name_both_addresses(
    error: IceProbeError,
    expected: Seq<char>,
    actual: Seq<char>,
    detail: Seq<char>,
)
    ensures
        error is InvalidRemote ==> occurs(
            probe_text(error, expected, actual, detail),
            "probe remote "@ + actual,
        ) && occurs(
            probe_text(error, expected, actual, detail),
            " is not nominated "@ + expected,
        ),
        error is Identity || error is Quic || error is Protocol ==> occurs(
            probe_text(error, expected, actual, detail),
            detail,
        ),
        error matches IceProbeError::Transcript(fault) ==> occurs(
            probe_text(error, expected, actual, detail),
            transcript_text(fault),
        ),
{
    broadcast use {
        lemma_found_in_the_front,
        lemma_found_at_the_end,
        lemma_found_across,
        lemma_found_whole,
    };

}

/// An error of an identity names the file it is about, the limit or the mode,
/// and the error that it wraps.
pub proof fn law_identity_errors_name_the_file(
    error: IdentityError,
    path: Seq<char>,
    detail: Seq<char>,
)
    ensures
        ({
            let text = error_text(error, path, detail);
            &&& error is Generation || error is InvalidIdentity || error is InvalidPeerCertificate
                || error is ClientVerifier || error is QuicCrypto || error is QuicTransport
                || error is WindowsAclCommandFailed || error is Io ==> occurs(text, detail)
            &&& error is FileTooLarge || error is InsecurePrivateKeyPermissions
                || error is InsecureWindowsPrivateKeyAcl || error is WindowsAclCommandFailed
                || error is Io ==> occurs(text, path)
            &&& error matches IdentityError::FileTooLarge { kind, max_bytes } ==> says(
                text,
                " exceeds the "@,
                max_bytes as nat,
            ) && occurs(text, kind_text(kind))
            &&& error matches IdentityError::InsecurePrivateKeyPermissions { mode } ==> occurs(
                text,
                " has insecure mode "@ + octal(mode as nat, 4),
            )
            &&& error matches IdentityError::InvalidDisplayName(inner) ==> occurs(
                text,
                name_error_text(inner),
            )
        }),
{
    broadcast use {
        lemma_found_in_the_front,
        lemma_found_at_the_end,
        lemma_found_across,
        lemma_found_whole,
    };

}

/// A name that is too long is told its length, and a character that a name may
/// not have its place.
pub proof fn law_name_errors_name_their_numbers(error: DisplayNameError)
    ensures
        error matches DisplayNameError::TooLong { actual } ==> says(
            name_error_text(error),
            "display name has "@,
            actual as nat,
        ),
        error matches DisplayNameError::InvalidCharacter { index } ==> says(
            name_error_text(error),
            "display name has an invalid character at index "@,
            index as nat,
        ),
{
    broadcast use {
        lemma_found_in_the_front,
        lemma_found_at_the_end,
        lemma_found_across,
        lemma_found_whole,
    };

}

} // verus!
