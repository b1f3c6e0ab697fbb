//! One configuration command round trip: build the frame, pad it to a transfer, send
//! it, and wait for the matching response.
use vstd::prelude::*;

use crate::bytes::zeros;
use crate::device::{Aic8800Product, is_d80_family, spec_command_header_mode};
use crate::protocol::{
    CommandHeaderMode, ConfigResponse, ConfigResponseView, ProtocolError, build_command_frame,
    finalize_command_transfer, spec_command_frame, spec_command_frame_outcome, spec_transfer_length,
    spec_transfer_outcome,
};
use crate::response::{
    AicResponseError, AicResponseIo, config_result_view, config_wait, read_config_response,
    spec_find_config_response,
};
use crate::sdio::{
    AicCommandError, AicCommandIo, BusOperation, command_fifo_write, log_extends,
    send_command_transfer, send_outcome,
};

verus! {

#[derive(Clone, Copy, Debug, Eq, PartialEq)]
pub enum AicTransactionError<E> {
    Protocol(ProtocolError),
    Send(AicCommandError<E>),
    Receive(AicResponseError<E>),
}

/// The padded transfer that carries a configuration command.
pub open spec fn spec_command_transfer(
    mode: CommandHeaderMode,
    id: u16,
    destination_id: u16,
    source_id: u16,
    parameter: Seq<u8>,
) -> Seq<u8> {
    let frame = spec_command_frame(mode, id, destination_id, source_id, parameter);
    frame + zeros((spec_transfer_length(frame.len()) - frame.len()) as nat)
}

/// Why a command cannot be framed in transmit storage of `available` bytes, if it cannot.
pub open spec fn spec_command_framing_error(parameter_length: nat, available: nat) -> Option<
    ProtocolError,
> {
    match spec_command_frame_outcome(parameter_length, available) {
        Err(error) => Some(error),
        Ok(frame_length) => match spec_transfer_outcome(frame_length as nat, available) {
            Err(error) => Some(error),
            Ok(_) => None,
        },
    }
}

/// The response of a round trip, or the error that ended it, as plain values.
pub open spec fn transaction_view<'a, E>(result: Result<ConfigResponse<'a>, AicTransactionError<E>>) -> Result<
    ConfigResponseView,
    AicTransactionError<E>,
> {
    match result {
        Ok(response) => Ok(response@),
        Err(error) => Err(error),
    }
}

/// Whether `operations` are a framed command round trip that sent `transfer`: the send, as
/// `send_command_transfer` performs it, and when it succeeded, a wait for the response
/// `expected` (receive storage going from `before` to `after`); the round trip ends with
/// `outcome`.
pub open spec fn command_run<E>(
    product: Aic8800Product,
    transfer: Seq<u8>,
    expected: u16,
    timeout: u32,
    operations: Seq<BusOperation>,
    before: Seq<u8>,
    after: Seq<u8>,
    outcome: Result<ConfigResponseView, AicTransactionError<E>>,
) -> bool {
    match outcome {
        Err(AicTransactionError::Send(error)) => send_outcome(
            product,
            transfer,
            operations,
            Err::<(), AicCommandError<E>>(error),
        ) && after == before,
        Err(AicTransactionError::Protocol(_)) => false,
        Err(AicTransactionError::Receive(error)) => exists|split: int|
            #![trigger operations.take(split)]
            {
                &&& 0 <= split <= operations.len()
                &&& send_outcome(product, transfer, operations.take(split), Ok::<(), AicCommandError<E>>(()))
                &&& config_wait(
                    product,
                    expected,
                    timeout,
                    0,
                    operations.skip(split),
                    before,
                    after,
                    Err::<ConfigResponseView, AicResponseError<E>>(error),
                )
            },
        Ok(response) => exists|split: int|
            #![trigger operations.take(split)]
            {
                &&& 0 <= split <= operations.len()
                &&& send_outcome(product, transfer, operations.take(split), Ok::<(), AicCommandError<E>>(()))
                &&& config_wait(
                    product,
                    expected,
                    timeout,
                    0,
                    operations.skip(split),
                    before,
                    after,
                    Ok::<ConfigResponseView, AicResponseError<E>>(response),
                )
            },
    }
}

/// Whether `operations` are the whole round trip of the command `request_id` from
/// `source_id` to `destination_id` with `parameter`, sent with transmit storage of
/// `capacity` bytes, waiting `timeout` ms for the response `expected`: a command that
/// cannot be framed fails with no bus operation; one that can is sent, exactly once, and
/// answered as `command_run` says.
pub open spec fn round_trip<E>(
    product: Aic8800Product,
    request_id: u16,
    destination_id: u16,
    source_id: u16,
    parameter: Seq<u8>,
    expected: u16,
    capacity: nat,
    timeout: u32,
    operations: Seq<BusOperation>,
    before: Seq<u8>,
    after: Seq<u8>,
    outcome: Result<ConfigResponseView, AicTransactionError<E>>,
) -> bool {
    match spec_command_framing_error(parameter.len(), capacity) {
        Some(error) => outcome == Err::<ConfigResponseView, AicTransactionError<E>>(
            AicTransactionError::Protocol(error),
        ) && operations.len() == 0 && after == before,
        None => command_run(
            product,
            spec_command_transfer(
                spec_command_header_mode(product),
                request_id,
                destination_id,
                source_id,
                parameter,
            ),
            expected,
            timeout,
            operations,
            before,
            after,
            outcome,
        ),
    }
}

/// What the library itself decides of a round trip's failure, given the transaction
/// error it ended with, if any: a command that cannot be framed in transmit storage of
/// `capacity` bytes fails with that framing error before any bus operation, one that can
/// is never refused for framing, no response is waited for before `transfer` was sent,
/// and a timeout reports the time waited.
pub open spec fn transaction_failure_stated<E>(
    product: Aic8800Product,
    transfer: Seq<u8>,
    parameter_length: nat,
    capacity: nat,
    timeout: u32,
    operations: Seq<BusOperation>,
    error: Option<AicTransactionError<E>>,
) -> bool {
    &&& spec_command_framing_error(parameter_length, capacity) matches Some(framing) ==> error
        == Some(AicTransactionError::<E>::Protocol(framing)) && operations.len() == 0
    &&& spec_command_framing_error(parameter_length, capacity) is None ==> !(error matches Some(
        AicTransactionError::Protocol(_),
    ))
    &&& error matches Some(AicTransactionError::Receive(AicResponseError::Timeout { milliseconds }))
        ==> milliseconds == timeout
    &&& error matches Some(AicTransactionError::Receive(_)) ==> sent_command(product, operations, transfer)
}

/// Whether `operations` holds the command transfer written, successfully, to the
/// command FIFO of `product`.
pub open spec fn sent_command(
    product: Aic8800Product,
    operations: Seq<BusOperation>,
    transfer: Seq<u8>,
) -> bool {
    exists|i: int|
        0 <= i < operations.len() && #[trigger] operations[i] == command_fifo_write(
            product,
            transfer,
            true,
        )
}

/// Whether `response` is the response `expected` found in what was received into `storage`.
pub open spec fn received_response(
    storage: Seq<u8>,
    expected: u16,
    response: ConfigResponseView,
) -> bool {
    &&& response.id == expected
    &&& exists|length: nat|
        length <= storage.len() && spec_find_config_response(storage, length, 0, expected) == Ok::<
            Option<ConfigResponseView>,
            ProtocolError,
        >(Some(response))
}

/// Sends the configuration command `request_id` from `source_id` to `destination_id`
/// with `parameter`, then waits up to `response_timeout_ms` for the response
/// `expected_response_id`, which borrows from `receive_storage`.
pub fn execute_config_command<'a, I>(
    io: &mut I,
    product: Aic8800Product,
    request_id: u16,
    expected_response_id: u16,
    destination_id: u16,
    source_id: u16,
    parameter: &[u8],
    transmit_storage: &mut [u8],
    receive_storage: &'a mut [u8],
    response_timeout_ms: u32,
) -> (result: Result<ConfigResponse<'a>, AicTransactionError<<I as AicCommandIo>::Error>>) where
    I: AicCommandIo + AicResponseIo<Error = <I as AicCommandIo>::Error>,

    ensures
        log_extends(old(io).bus_log(), final(io).bus_log()),
        final(receive_storage)@.len() == old(receive_storage)@.len(),
        final(transmit_storage)@.len() == old(transmit_storage)@.len(),
        round_trip(
            product,
            request_id,
            destination_id,
            source_id,
            parameter@,
            expected_response_id,
            old(transmit_storage)@.len(),
            response_timeout_ms,
            final(io).bus_log().skip(old(io).bus_log().len() as int),
            old(receive_storage)@,
            final(receive_storage)@,
            transaction_view(result),
        ),
        ({
            let operations = final(io).bus_log().skip(old(io).bus_log().len() as int);
            let transfer = spec_command_transfer(
                spec_command_header_mode(product),
                request_id,
                destination_id,
                source_id,
                parameter@,
            );
            &&& spec_command_framing_error(parameter@.len(), old(transmit_storage)@.len()) matches Some(
                error,
            ) ==> result == Err::<ConfigResponse<'a>, AicTransactionError<<I as AicCommandIo>::Error>>(
                AicTransactionError::Protocol(error),
            ) && operations.len() == 0
            &&& spec_command_framing_error(parameter@.len(), old(transmit_storage)@.len()) is None
                ==> !(result is Err && result->Err_0 is Protocol)
            &&& result is Ok ==> sent_command(product, operations, transfer)
            &&& result matches Err(AicTransactionError::Receive(_)) ==> sent_command(
                product,
                operations,
                transfer,
            )
            &&& result matches Ok(response) ==> received_response(
                final(receive_storage)@,
                expected_response_id,
                response@,
            )
            &&& result matches Err(AicTransactionError::Receive(AicResponseError::Timeout {
                milliseconds,
            })) ==> milliseconds == response_timeout_ms
            &&& result matches Err(AicTransactionError::Receive(AicResponseError::UnsupportedProduct(p)))
                ==> p == product && !is_d80_family(product)
            &&& transaction_failure_stated(
                product,
                transfer,
                parameter@.len(),
                old(transmit_storage)@.len(),
                response_timeout_ms,
                operations,
                match result {
                    Ok(_) => None,
                    Err(error) => Some(error),
                },
            )
        }),
{
    let frame_length = match build_command_frame(
        transmit_storage,
        product.command_header_mode(),
        request_id,
        destination_id,
        source_id,
        parameter,
    ) {
        Ok(length) => length,
        Err(error) => {
            assert(io.bus_log().skip(io.bus_log().len() as int) =~= seq![]);
            return Err(AicTransactionError::Protocol(error));
        },
    };
    let transfer_length = match finalize_command_transfer(transmit_storage, frame_length) {
        Ok(length) => length,
        Err(error) => {
            assert(io.bus_log().skip(io.bus_log().len() as int) =~= seq![]);
            return Err(AicTransactionError::Protocol(error));
        },
    };
    let ghost frame = spec_command_frame(
        spec_command_header_mode(product),
        request_id,
        destination_id,
        source_id,
        parameter@,
    );
    let (transfer, _rest) = transmit_storage.split_at_mut(transfer_length);
    assert(transfer@ =~= spec_command_transfer(
        spec_command_header_mode(product),
        request_id,
        destination_id,
        source_id,
        parameter@,
    ));
    let ghost start = io.bus_log();
    let ghost sent = transfer@;
    match send_command_transfer(io, product, transfer) {
        Ok(()) => {},
        Err(error) => return Err(AicTransactionError::Send(error)),
    }
    let ghost after_send = io.bus_log();
    let ghost write_index: int = after_send.len() - 1 - start.len();
    assert(after_send.skip(start.len() as int)[write_index] == command_fifo_write(
        product,
        sent,
        true,
    ));
    let received = read_config_response(
        io,
        product,
        expected_response_id,
        receive_storage,
        response_timeout_ms,
    );
    proof {
        let operations = io.bus_log().skip(start.len() as int);
        assert(operations[write_index] == after_send[start.len() + write_index]);
        assert(sent_command(product, operations, sent));
        let split = after_send.len() - start.len();
        assert(operations.take(split) =~= after_send.skip(start.len() as int));
        assert(operations.skip(split) =~= io.bus_log().skip(after_send.len() as int));
        assert(send_outcome(
            product,
            sent,
            operations.take(split),
            Ok::<(), AicCommandError<<I as AicCommandIo>::Error>>(()),
        ));
    }
    match received {
        Ok(response) => Ok(response),
        Err(error) => Err(AicTransactionError::Receive(error)),
    }
}

} // verus!
