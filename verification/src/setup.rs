//! The arithmetic the programs do around their services: how many services
//! each worker thread runs, which core a worker is pinned to, the address a
//! client binds, and the bandwidth a client reports.

use vstd::prelude::*;

verus! {

/// The number of services each of `threads` worker threads starts when
/// `total` are asked for: the quotient, rounded down.
pub fn per_thread(total: u64, threads: u64) -> (count: u64)
    requires
        threads > 0,
    ensures
        count == total / threads,
        count * threads <= total,
{
    let count = total / threads;
    assert(count * threads <= total) by (nonlinear_arith)
        requires
            count == total / threads,
            threads > 0,
    ;
    count
}

/// The core that worker `index` is pinned to, going round the `cores` cores.
pub fn core_for(index: usize, cores: usize) -> (core: usize)
    requires
        cores > 0,
    ensures
        core == index % cores,
        core < cores,
{
    index % cores
}

/// The wildcard address with port zero that a client binds: IPv4 when the
/// server's address is IPv4, IPv6 otherwise.
pub fn local_bind_address(server_is_ipv4: bool) -> (address: &'static str)
    ensures
        address@ == (if server_is_ipv4 { "0.0.0.0:0"@ } else { "[::]:0"@ }),
{
    if server_is_ipv4 {
        "0.0.0.0:0"
    } else {
        "[::]:0"
    }
}

/// The payload size of a client's datagram, in bytes.
pub const PAYLOAD_BYTES: u64 = 100;

/// The size of a hash reply, in bytes.
pub const REPLY_BYTES: u64 = 64;

/// The number of bytes in a mebibyte.
pub const MEBIBYTE: u64 = 1024 * 1024;

/// The traffic of one second, in whole mebibytes, counting a full payload
/// for each datagram sent and a reply for each one received.
pub open spec fn spec_bandwidth_mb(sent: u64, received: u64) -> int {
    (sent * PAYLOAD_BYTES + received * REPLY_BYTES) / (MEBIBYTE as int)
}

/// Computes the bandwidth that a client reports; the byte count must fit in
/// a `u64`, as the client computes it in one.
pub fn bandwidth_mb(sent: u64, received: u64) -> (mb: u64)
    requires
        sent * PAYLOAD_BYTES + received * REPLY_BYTES <= u64::MAX,
    ensures
        mb == spec_bandwidth_mb(sent, received),
        mb * 1048576 <= sent * 100 + received * 64 < (mb + 1) * 1048576,
{
    let mb = (sent * PAYLOAD_BYTES + received * REPLY_BYTES) / MEBIBYTE;
    proof {
        lemma_bandwidth_counts_whole_mebibytes(sent, received);
    }
    mb
}

/// The reported bandwidth is the number of whole mebibytes in the traffic of
/// one second, counting 100 bytes for each datagram sent and 64 bytes for each
/// reply received: that many mebibytes fit in it, and one more does not.
pub proof fn lemma_bandwidth_counts_whole_mebibytes(sent: u64, received: u64)
    ensures
        spec_bandwidth_mb(sent, received) >= 0,
        spec_bandwidth_mb(sent, received) * 1048576 <= sent * 100 + received * 64,
        sent * 100 + received * 64 < (spec_bandwidth_mb(sent, received) + 1) * 1048576,
{
    let total: int = sent * 100 + received * 64;
    assert(spec_bandwidth_mb(sent, received) == total / 1048576);
    assert(total / 1048576 >= 0 && (total / 1048576) * 1048576 <= total < (total / 1048576 + 1) * 1048576)
        by (nonlinear_arith)
        requires
            total >= 0,
    ;
}

/// A mebibyte's worth of extra replies (16384 of 64 bytes) raises the
/// reported bandwidth by exactly one, and 262144 extra datagrams sent (25
/// mebibytes of 100-byte payloads) raise it by exactly 25.
pub proof fn lemma_bandwidth_increments(sent: u64, received: u64)
    requires
        received + 16384 <= u64::MAX,
        sent + 262144 <= u64::MAX,
    ensures
        spec_bandwidth_mb(sent, (received + 16384) as u64) == spec_bandwidth_mb(sent, received) + 1,
        spec_bandwidth_mb((sent + 262144) as u64, received) == spec_bandwidth_mb(sent, received) + 25,
{
    let total: int = sent * 100 + received * 64;
    lemma_bandwidth_counts_whole_mebibytes(sent, received);
    lemma_bandwidth_counts_whole_mebibytes(sent, (received + 16384) as u64);
    lemma_bandwidth_counts_whole_mebibytes((sent + 262144) as u64, received);
    let m = spec_bandwidth_mb(sent, received);
    let m1 = spec_bandwidth_mb(sent, (received + 16384) as u64);
    let m2 = spec_bandwidth_mb((sent + 262144) as u64, received);
    assert(m1 == m + 1) by (nonlinear_arith)
        requires
            m * 1048576 <= total < (m + 1) * 1048576,
            m1 * 1048576 <= total + 1048576 < (m1 + 1) * 1048576,
    ;
    assert(m2 == m + 25) by (nonlinear_arith)
        requires
            m * 1048576 <= total < (m + 1) * 1048576,
            m2 * 1048576 <= total + 26214400 < (m2 + 1) * 1048576,
    ;
}

} // verus!
