//! What the states of two ends promise each other.

use crate::addr::Ipv4Addr;
use crate::header::{Ipv4Header, TcpHeader};
use crate::protocol::tcp::prelude::{Port, Remote};
use crate::protocol::tcp::socket::{
    ack_header, fin_header, status_of, Closed, FinWait1, Listen, Socket, SocketStatus, SynReceived,
    SynSent, Update, UpdateAction,
};
use vstd::prelude::*;

verus! {

/// Whether a packet can take a socket from one state to another.
pub open spec fn leads_to(from: SocketStatus, to: SocketStatus) -> bool {
    match from {
        SocketStatus::Closed => false,
        SocketStatus::Listen => to == SocketStatus::Listen,
        SocketStatus::SynSent => to == SocketStatus::Established,
        SocketStatus::SynReceived => to == SocketStatus::SynReceived || to
            == SocketStatus::Established,
        SocketStatus::Established => to == SocketStatus::Established || to
            == SocketStatus::CloseWait,
        SocketStatus::FinWait1 => to == SocketStatus::FinWait1 || to == SocketStatus::FinWait2
            || to == SocketStatus::Closing || to == SocketStatus::TimeWait,
        SocketStatus::FinWait2 => to == SocketStatus::FinWait2 || to == SocketStatus::TimeWait,
        SocketStatus::Closing => to == SocketStatus::Closing || to == SocketStatus::TimeWait,
        SocketStatus::TimeWait => to == SocketStatus::TimeWait,
        SocketStatus::CloseWait => to == SocketStatus::CloseWait,
        SocketStatus::LastAck => to == SocketStatus::Closed,
    }
}

/// A packet takes a socket to no state but those that may follow its own.
pub proof fn law_packets_follow_state_diagram(
    before: Socket,
    after: Socket,
    ip_header: Ipv4Header,
    tcp_header: TcpHeader,
    payload: Seq<u8>,
    src_ip: Ipv4Addr,
    update: Update,
)
    requires
        before.steps(after, ip_header, tcp_header, payload, src_ip, update),
    ensures
        leads_to(status_of(before.state), status_of(after.state)),
{
}

/// A packet asks for another socket to be opened only where a socket listens and the packet opens a
/// connection, and for the socket to be closed only where both ends have closed.
pub proof fn law_packets_ask_for_little(
    before: Socket,
    after: Socket,
    ip_header: Ipv4Header,
    tcp_header: TcpHeader,
    payload: Seq<u8>,
    src_ip: Ipv4Addr,
    update: Update,
)
    requires
        before.steps(after, ip_header, tcp_header, payload, src_ip, update),
    ensures
        update.action matches Some(UpdateAction::NewSynReceivedSocket(_, _)) <==> before.state
            is Listen && tcp_header.syn,
        update.action matches Some(UpdateAction::CloseSocket(_)) <==> before.state is FinWait2
            && tcp_header.fin,
        update.action matches Some(UpdateAction::CloseSocket(id)) ==> id == before.id,
{
}

/// The handshake brings both ends together. The listening end's answer is what the connecting end
/// waits for, and the connecting end's acknowledgement is what the new socket waits for. Then
/// each end sends from the sequence number that the other one expects, and each names the other as
/// its remote.
///
/// Headers arrive as they were sent, but for the checksum.
pub proof fn law_handshake_synchronizes(
    client: Closed,
    client_ip: Ipv4Addr,
    client_port: Port,
    server: Listen,
    server_ip: Ipv4Addr,
    syn: TcpHeader,
    syn_ack: TcpHeader,
    ack: TcpHeader,
)
    requires
        client.seq_no < 65535,
        server.seq_no < 65535,
        syn == (TcpHeader {
            checksum: syn.checksum,
            ..client.syn_header(client_port, server.port)
        }),
        syn_ack == (TcpHeader {
            checksum: syn_ack.checksum,
            ..server.syn_ack_header(syn)
        }),
        ({
            let waiting = connecting(client, client_port, server_ip, server.port);
            ack == (TcpHeader {
                checksum: ack.checksum,
                ..ack_header(
                    client_port,
                    server.port,
                    waiting.seq_no,
                    syn_ack.sequence_number,
                )
            })
        }),
    ensures
        ({
            let waiting = connecting(client, client_port, server_ip, server.port);
            let answered = server.answered(client_ip, syn);
            // The connecting end takes the answer.
            &&& syn_ack.syn && syn_ack.ack
            &&& syn_ack.acknowledgment_number == waiting.seq_no
            // The new socket takes the acknowledgement.
            &&& ack.ack && ack.acknowledgment_number == answered.seq_no
            // The connecting end sends from where the new socket expects, and the reverse.
            &&& waiting.seq_no == ack.sequence_number
            &&& answered.seq_no == syn_ack.sequence_number + 1
            // Each end knows the other.
            &&& waiting.socket_id().remote == (Remote { addr: server_ip, port: server.port })
            &&& answered.socket_id().remote == (Remote { addr: client_ip, port: client_port })
            &&& waiting.socket_id().local_port == client_port
            &&& answered.socket_id().local_port == server.port
        }),
{
}

/// The state of an end that connects.
pub open spec fn connecting(
    client: Closed,
    client_port: Port,
    server_ip: Ipv4Addr,
    server_port: Port,
) -> SynSent {
    SynSent {
        seq_no: (client.seq_no + 1) as u32,
        src_port: client_port,
        dest_ip: server_ip,
        dest_port: server_port,
    }
}

/// The acknowledgement of the segment that ends a connection is taken for that by the end that
/// sent the segment.
pub proof fn law_fin_acknowledgement_is_recognized(
    closing: FinWait1,
    fin: TcpHeader,
    ack: TcpHeader,
    remote_seq_no: u32,
)
    requires
        closing.fin_seq_no matches Some(seq_no) && seq_no < u32::MAX,
        fin == (TcpHeader {
            checksum: fin.checksum,
            ..fin_header(closing.local_port, closing.remote_port, closing.fin_seq_no->0)
        }),
        ack == (TcpHeader {
            checksum: ack.checksum,
            ..ack_header(
                closing.remote_port,
                closing.local_port,
                remote_seq_no,
                fin.sequence_number,
            )
        }),
    ensures
        fin.fin,
        ack.ack,
        closing.acknowledged_by(ack),
{
}

} // verus!
