//! Send and receive buffers.

use ip::protocol::tcp::buf::{
    make_default_recvbuf, make_default_sendbuf, FillError, InnerRecvBuf, InnerSendBuf,
    SetTailError, SliceError, WriteRangeError,
};
use ip::protocol::tcp::TCP_DEFAULT_WINDOW_SZ;
use rand::Rng;
use std::cmp::min;

fn make_default_inner_sendbuf(start_seq_no: usize) -> InnerSendBuf<TCP_DEFAULT_WINDOW_SZ> {
    InnerSendBuf::<TCP_DEFAULT_WINDOW_SZ>::new(start_seq_no)
}

fn make_default_inner_recvbuf(start_seq_no: usize) -> InnerRecvBuf<TCP_DEFAULT_WINDOW_SZ> {
    InnerRecvBuf::<TCP_DEFAULT_WINDOW_SZ>::new(start_seq_no)
}

fn fill_send_buf<const N: usize>(buf: &mut InnerSendBuf<N>, data: &[u8]) {
    loop {
        let written = buf.write(data);
        if written == 0 {
            break;
        }
    }
    assert!(buf.is_full());
}

fn fill_recv_buf<const N: usize>(buf: &mut InnerRecvBuf<N>, start_seq_no: usize, data: &[u8]) {
    let mut curr = start_seq_no;
    loop {
        match buf.write(curr, data) {
            Ok(_) => curr += data.len(),
            Err(_) => {
                let remaining = buf.write_remaining_size();
                buf.write(curr, &data[..remaining]).unwrap();
                break;
            }
        }
    }
}

fn cycle(n: usize) -> Vec<u8> {
    let base_data = [1, 2, 3, 4, 5, 6, 7, 8, 9, 10];
    base_data.into_iter().cycle().take(n).collect()
}

#[test]
fn read_write() {
    let data = cycle(1024);
    let num_repeats = 100_000;
    let initial_seq_no = 33;
    let mut buf = make_default_sendbuf(initial_seq_no);

    let mut out_buf = vec![0; data.len()];
    let mut seq_no = initial_seq_no;
    let mut produced = 0;
    let mut curr = 0;
    let mut consumed = 0;
    while consumed < num_repeats {
        // The producer writes until the buffer is full, or it is done.
        while produced < num_repeats {
            match buf.write_all(&data, curr).unwrap() {
                Some(rest) => {
                    curr = rest;
                    break;
                }
                None => {
                    curr = 0;
                    produced += 1;
                }
            }
        }
        // The consumer takes what is there.
        while buf.slice_front(&mut out_buf) {
            assert_eq!(out_buf, data);
            seq_no += out_buf.len();
            buf.set_tail(seq_no).unwrap();
            consumed += 1;
        }
    }
    assert_eq!(produced, num_repeats);
}

#[test]
fn read_write_with_try_slice() {
    let data = cycle(1024);
    let num_repeats = 1_000_000;
    let initial_seq_no = 33;
    let mut buf = make_default_sendbuf(initial_seq_no);

    let mut out_buf = vec![0; data.len()];
    let mut seq_no = initial_seq_no;
    let mut produced = 0;
    let mut curr = 0;
    let mut consumed = 0;
    while consumed < num_repeats {
        while produced < num_repeats {
            match buf.write_all(&data, curr).unwrap() {
                Some(rest) => {
                    curr = rest;
                    break;
                }
                None => {
                    curr = 0;
                    produced += 1;
                }
            }
        }
        loop {
            match buf.try_slice(seq_no, &mut out_buf) {
                Ok(_) => {
                    assert_eq!(out_buf, data);
                    seq_no += out_buf.len();
                    consumed += 1;
                }
                Err(_) => {
                    // Ran out of data to slice, discard all consumed content.
                    buf.set_tail(seq_no).unwrap();
                    break;
                }
            }
        }
    }
    assert_eq!(produced, num_repeats);
}

#[test]
fn buf_read_write() {
    let data = cycle(1024);
    let num_repeats = 100_000;
    let initial_seq_no = 87;
    let mut buf = make_default_recvbuf(initial_seq_no);

    let mut out_buf = vec![0; data.len()];
    let mut seq_no = initial_seq_no;
    let mut produced = 0;
    for _ in 0..num_repeats {
        while produced < num_repeats && buf.write(seq_no, &data).unwrap() {
            seq_no += data.len();
            produced += 1;
        }
        assert!(buf.fill(&mut out_buf, 0).unwrap().is_none());
        assert_eq!(out_buf, data);
    }
}

#[test]
fn write_until_full() {
    let data = [1; 15];

    let mut buf = make_default_inner_sendbuf(98989);
    assert!(buf.is_empty());

    let mut total_written = 0;
    loop {
        let written = buf.write(&data);
        if written == 0 {
            break;
        }
        total_written += written;
    }

    assert!(buf.is_full());
    assert_eq!(total_written, buf.size());
}

#[test]
fn read_until_empty() {
    let data = [1, 2, 3, 4, 5, 6, 7, 8];

    let initial_seq_no = 56;
    let mut buf = make_default_inner_sendbuf(initial_seq_no);
    fill_send_buf(&mut buf, &data);

    let mut seq_no = initial_seq_no;
    while !buf.is_empty() {
        match buf.set_tail(seq_no + data.len()) {
            Ok(_) => {
                seq_no += data.len();
                let expect_len = min(data.len(), buf.read_remaining_size());
                let pending_buf = buf.unconsumed().slice_front(expect_len).unwrap();
                assert!(pending_buf == data[..expect_len]);
            }
            Err(_) => {
                buf.set_tail(seq_no + buf.read_remaining_size()).unwrap();
                seq_no += buf.read_remaining_size();
            }
        }
    }

    assert!(buf.is_empty());
    assert!(buf.unconsumed().is_empty());
}

#[test]
fn inner_read_write() {
    // One side writes as an application does, the other marks bytes as consumed as they are
    // acknowledged.
    let data = [1, 2, 3, 4, 5, 6, 7, 8];
    let num_repeats = 1_000_000;
    let initial_seq_no = 77;
    let mut buf = make_default_inner_sendbuf(initial_seq_no);

    let mut seq_no = initial_seq_no;
    let mut produced = 0;
    let mut start = 0;
    let mut consumed = 0;
    while consumed < num_repeats {
        while produced < num_repeats {
            start += buf.write(&data[start..]);
            if start < data.len() {
                break;
            }
            start = 0;
            produced += 1;
        }
        while buf.read_remaining_size() >= data.len() {
            let got = buf.unconsumed().slice_front(data.len()).unwrap();
            assert_eq!(got, data[..]);
            seq_no += data.len();
            buf.set_tail(seq_no).unwrap();
            consumed += 1;
        }
    }
}

#[test]
fn contiguous_write_till_full() {
    let start_seq_no = 231251;
    let data = [1, 2, 3, 4, 5, 6, 7, 8];

    let mut buf = make_default_inner_recvbuf(start_seq_no);
    assert!(buf.write_remaining_size() == TCP_DEFAULT_WINDOW_SZ);
    assert_eq!(
        buf.write_range(),
        (start_seq_no, start_seq_no + buf.write_remaining_size())
    );

    let mut curr = start_seq_no;
    let mut total = 0;
    loop {
        match buf.write(curr, &data) {
            Ok(_) => {
                curr += data.len();
                total += data.len();
                assert_eq!(buf.read_remaining_size(), total);
                assert_eq!(buf.expected_next(), start_seq_no + total);
                assert_eq!(
                    buf.write_range(),
                    (start_seq_no + total, start_seq_no + TCP_DEFAULT_WINDOW_SZ)
                );
            }
            Err(_) => {
                let remaining = buf.write_remaining_size();
                buf.write(curr, &data[..remaining]).unwrap();
                total += remaining;
                break;
            }
        }
    }

    assert_eq!(total, TCP_DEFAULT_WINDOW_SZ);
    assert_eq!(buf.write_remaining_size(), 0);
    assert_eq!(buf.read_remaining_size(), TCP_DEFAULT_WINDOW_SZ);
    assert_eq!(
        buf.write_range(),
        (
            start_seq_no + TCP_DEFAULT_WINDOW_SZ,
            start_seq_no + TCP_DEFAULT_WINDOW_SZ
        )
    );
}

#[test]
fn contiguous_read_from_full() {
    let start_seq_no = 1291241;
    let data = [1, 2, 3, 4, 5, 6, 7, 8];

    let mut buf = make_default_inner_recvbuf(start_seq_no);
    fill_recv_buf(&mut buf, start_seq_no, &data);

    assert_eq!(buf.write_remaining_size(), 0);
    assert_eq!(buf.read_remaining_size(), TCP_DEFAULT_WINDOW_SZ);
    assert_eq!(
        buf.write_range(),
        (
            start_seq_no + TCP_DEFAULT_WINDOW_SZ,
            start_seq_no + TCP_DEFAULT_WINDOW_SZ
        )
    );

    let mut total_consumed = 0;
    let mut bytes = vec![0; 16];
    loop {
        let consumed = buf.try_fill(&mut bytes[..data.len()]);
        if consumed.len() < data.len() {
            assert_eq!(consumed, &data[..consumed.len()]);
            total_consumed += consumed.len();
            break;
        }
        assert_eq!(consumed, &data);
        total_consumed += consumed.len();

        assert_eq!(
            buf.read_remaining_size(),
            TCP_DEFAULT_WINDOW_SZ - total_consumed
        );
        assert_eq!(buf.write_remaining_size(), total_consumed);
        assert_eq!(
            buf.write_range(),
            (
                start_seq_no + TCP_DEFAULT_WINDOW_SZ,
                start_seq_no + TCP_DEFAULT_WINDOW_SZ + total_consumed
            )
        );
    }

    assert_eq!(total_consumed, TCP_DEFAULT_WINDOW_SZ);
}

#[test]
fn contiguous_read_write() {
    // One side pushes data into the buffer as segments arrive, the other consumes it.
    let start_seq_no = 91215;
    let num_repeats = 1_000_000;
    let data = [1, 2, 3, 4, 5, 6, 7, 8];
    let mut buf = make_default_inner_recvbuf(start_seq_no);

    let mut seq_no = start_seq_no;
    let mut produced = 0;
    let mut consume_buf = vec![0; 16];
    for _ in 0..num_repeats {
        while produced < num_repeats && buf.write(seq_no, &data).is_ok() {
            seq_no += data.len();
            produced += 1;
        }
        let mut curr = 0;
        while curr < data.len() {
            curr += buf.try_fill(&mut consume_buf[curr..data.len()]).len();
        }
        assert_eq!(consume_buf[..data.len()], data);
    }
    assert!(buf.read_remaining_size() == 0);
}

#[test]
fn non_consecutive_rw() {
    let start_seq_no = 0;
    let data = [1, 2, 3, 4, 5, 6, 7, 8];
    let mut buf = make_default_inner_recvbuf(start_seq_no);

    //      |-------------WRITEABLE------------|
    // |xxxx-----------------------------------|
    //  ^   ^
    //  0   8

    buf.write(start_seq_no, &data).unwrap();
    assert!(!buf.has_early_arrival());
    assert_eq!(
        buf.write_remaining_size(),
        TCP_DEFAULT_WINDOW_SZ - data.len()
    );
    assert_eq!(buf.expected_next(), 8);
    assert_eq!(
        buf.write_range(),
        (
            start_seq_no + data.len(),
            start_seq_no + TCP_DEFAULT_WINDOW_SZ
        )
    );

    //      |-------------WRITEABLE------------|
    // |xxxx-------------xxxx------------------|
    //  ^   ^            ^   ^
    //  0   8            100 108

    buf.write(start_seq_no + 100, &data).unwrap();
    assert!(buf.has_early_arrival());
    assert_eq!(
        buf.write_remaining_size(),
        TCP_DEFAULT_WINDOW_SZ - data.len()
    );
    assert_eq!(buf.expected_next(), 8);
    assert_eq!(
        buf.write_range(),
        (
            start_seq_no + data.len(),
            start_seq_no + TCP_DEFAULT_WINDOW_SZ
        )
    );

    //      |-------------WRITEABLE------------|
    // |xxxx-------------xxxx----xxxx----------|
    //  ^   ^            ^   ^   ^   ^
    //  0   8            100 108 135 143

    buf.write(start_seq_no + 135, &data).unwrap();
    assert!(buf.has_early_arrival());
    assert_eq!(
        buf.write_remaining_size(),
        TCP_DEFAULT_WINDOW_SZ - data.len()
    );
    assert_eq!(buf.expected_next(), 8);
    assert_eq!(
        buf.write_range(),
        (
            start_seq_no + data.len(),
            start_seq_no + TCP_DEFAULT_WINDOW_SZ
        )
    );

    //            |---------WRITEABLE----------|
    // |xxxxxxxxxx-------xxxx----xxxx----------|
    //  ^         ^      ^   ^   ^   ^
    //  0         63     100 108 135 143

    let payload = [8; 55];
    buf.write(start_seq_no + data.len(), &payload).unwrap();
    assert!(buf.has_early_arrival());
    assert_eq!(buf.expected_next(), 63);
    assert_eq!(
        buf.write_remaining_size(),
        TCP_DEFAULT_WINDOW_SZ - data.len() - payload.len()
    );
    assert_eq!(
        buf.write_range(),
        (
            start_seq_no + data.len() + payload.len(),
            start_seq_no + TCP_DEFAULT_WINDOW_SZ
        )
    );

    //                       |----WRITEABLE----|
    // |xxxxxxxxxxxxxxxxxxxxx----xxxx----------|
    //  ^                    ^   ^   ^
    //  0                    108 135 143

    let payload = [3; 37];
    buf.write(start_seq_no + 63, &payload).unwrap();
    assert!(buf.has_early_arrival());
    assert_eq!(buf.expected_next(), 108);
    assert_eq!(
        buf.write_range(),
        (start_seq_no + 108, start_seq_no + TCP_DEFAULT_WINDOW_SZ)
    );

    //                                    |-WT-|
    // |xxxxxxxxxxxxxxxxxxxxxxxxxxxxxxxxxx-----|
    //  ^                                 ^
    //  0                                 208

    let payload = [1; 100];
    buf.write(start_seq_no + 108, &payload).unwrap();
    assert!(!buf.has_early_arrival());
    assert_eq!(buf.expected_next(), 208);
    assert_eq!(
        buf.write_range(),
        (start_seq_no + 208, start_seq_no + TCP_DEFAULT_WINDOW_SZ)
    );
}

#[test]
fn multithreaded_non_consecutive_rw() {
    // The byte stream consumed is contiguous even when data arrives in different order.
    let data: Vec<u8> = (0..255).collect();

    let start_seq_no = 91215;
    let num_repeats = 100_000;
    let mut buf = make_default_inner_recvbuf(start_seq_no);
    let mut rng = rand::thread_rng();
    let mut seq_no = start_seq_no;
    let mut consume_buf = vec![0; 1024];

    for _ in 0..num_repeats {
        let target = seq_no + data.len();
        let mut num_iters = 0;
        let mut succeeded = false;

        while num_iters < 10 {
            // introduce jitter in arrival
            let offset = rng.gen_range(0..data.len());
            match buf.write(seq_no + offset, &data[offset..]) {
                Ok(_) => {}
                Err(e) => assert!(!matches!(e, WriteRangeError::ExceedBuffer(_))),
            }

            assert!(buf.expected_next() <= target);
            if buf.expected_next() == target {
                succeeded = true;
                break;
            }

            num_iters += 1;
        }

        if !succeeded {
            buf.write(seq_no, &data).unwrap();
        }
        seq_no = target;

        let mut curr = 0;
        while curr < data.len() {
            curr += buf.try_fill(&mut consume_buf[curr..data.len()]).len();
        }
        assert_eq!(consume_buf[..data.len()], data);
    }
    assert!(buf.read_remaining_size() == 0);
}

#[test]
fn acknowledgements_have_bounds() {
    let mut buf = make_default_inner_sendbuf(100);
    assert_eq!(buf.write(&[1, 2, 3]), 3);
    assert!(matches!(buf.set_tail(104), Err(SetTailError::TooBig)));
    assert!(matches!(buf.set_tail(99), Err(SetTailError::LowerThanCurrent)));
    assert!(!buf.set_tail(100).unwrap());
    assert!(buf.set_tail(102).unwrap());
    assert_eq!(buf.unconsumed(), [3u8][..]);
}

#[test]
fn slices_have_bounds() {
    let mut buf = make_default_sendbuf(100);
    assert_eq!(buf.write(&[1, 2, 3, 4, 5]).unwrap(), 5);
    buf.set_tail(101).unwrap();
    let mut out = [0u8; 2];
    assert_eq!(buf.try_slice(102, &mut out).unwrap(), 1);
    assert_eq!(out, [3, 4]);
    assert!(matches!(
        buf.try_slice(100, &mut out),
        Err(SliceError::StartSeqTooLow(101))
    ));
    assert!(matches!(
        buf.try_slice(104, &mut out),
        Err(SliceError::OutOfRange(1))
    ));
    assert!(matches!(
        buf.inner.unconsumed().slice(2, 9),
        Err(SliceError::OutOfRange(2))
    ));
    assert!(buf.inner.unconsumed().copy_into_buf(&mut out).is_err());
    let mut big = [9u8; 5];
    buf.inner.unconsumed().copy_into_buf(&mut big).unwrap();
    assert_eq!(big, [2, 3, 4, 5, 9]);
    assert!(buf.wait_for_new_data(104));
    assert!(!buf.wait_for_new_data(105));
}

#[test]
fn slices_wrap_around() {
    let mut buf = InnerSendBuf::<4>::new(6);
    assert_eq!(buf.write(&[1, 2, 3, 4, 5]), 4);
    buf.set_tail(8).unwrap();
    assert_eq!(buf.write(&[6, 7, 8]), 2);
    assert_eq!(buf.unconsumed(), [3u8, 4, 6, 7][..]);
    assert_eq!(buf.unconsumed().slice(1, 2).unwrap(), [4u8, 6][..]);
    assert_eq!(buf.unconsumed().len(), 4);
}

#[test]
fn closed_buffers_refuse() {
    let mut send = make_default_sendbuf(7);
    assert_eq!(send.write(b"ab").unwrap(), 2);
    assert!(!send.closed());
    send.close().unwrap();
    assert!(send.closed());
    assert!(send.write(b"c").is_err());
    assert!(send.write_all(b"c", 0).is_err());
    assert_eq!(send.wait_for_empty(), None);
    send.set_tail(9).unwrap();
    assert_eq!(send.wait_for_empty(), Some(9));

    let mut recv = make_default_recvbuf(7);
    assert!(recv.write(7, b"ab").unwrap());
    recv.close().unwrap();
    assert!(recv.close().is_err());
    let mut out = [0u8; 4];
    assert!(matches!(recv.fill(&mut out, 0), Err(FillError::Closed(2))));
    assert_eq!(&out[..2], b"ab");
}

#[test]
fn writes_of_nothing_change_nothing() {
    let mut buf = InnerRecvBuf::<16>::new(0);
    buf.write(4, &[]).unwrap();
    assert!(!buf.has_early_arrival());
    buf.write(0, &[]).unwrap();
    assert_eq!(buf.expected_next(), 0);
    buf.write(4, &[5]).unwrap();
    assert!(buf.has_early_arrival());
    buf.write(8, &[]).unwrap();
    buf.write(0, &[1, 2, 3, 4]).unwrap();
    assert!(!buf.has_early_arrival());
    assert_eq!(buf.expected_next(), 5);
    assert!(matches!(buf.write(17, &[]), Err(WriteRangeError::ExceedBuffer(16))));
}

#[test]
fn writes_stay_in_range() {
    let mut buf = InnerRecvBuf::<8>::new(10);
    buf.write(10, &[1, 2, 3]).unwrap();
    assert!(matches!(
        buf.write(12, &[9]),
        Err(WriteRangeError::SeqNoTooSmall(13))
    ));
    assert!(matches!(
        buf.write(16, &[9, 9, 9]),
        Err(WriteRangeError::ExceedBuffer(18))
    ));
    buf.write(16, &[7, 8]).unwrap();
    assert!(buf.has_early_arrival());
    buf.write(13, &[4, 5, 6]).unwrap();
    assert!(!buf.has_early_arrival());
    let mut out = [0u8; 8];
    assert_eq!(buf.try_fill(&mut out), &[1, 2, 3, 4, 5, 6, 7, 8]);
}

#[test]
fn some_bytes_are_read() {
    let mut buf = make_default_recvbuf(5);
    let mut out = [0u8; 4];
    assert_eq!(buf.try_fill_some(&mut out).unwrap(), None);
    assert!(buf.write(5, b"ab").unwrap());
    assert_eq!(buf.try_fill_some(&mut out).unwrap(), Some(2));
    assert_eq!(&out[..2], b"ab");
    assert!(buf.write(7, b"cdefg").unwrap());
    assert_eq!(buf.try_fill(&mut out).unwrap(), b"cdef");
    assert_eq!((buf.tail(), buf.head()), (11, 12));
    buf.close().unwrap();
    assert!(buf.try_fill(&mut out).is_err());
    assert!(buf.try_fill_some(&mut out).is_err());
}

#[test]
fn acknowledgements_have_ages() {
    let mut buf = make_default_sendbuf(5);
    let (tail, age) = buf.get_tail_and_age();
    assert_eq!(tail, 5);
    while buf.get_tail_and_age().1.nanos < age.nanos + 10_000_000 {}
    buf.write(b"ab").unwrap();
    buf.set_tail(5).unwrap();
    // The same acknowledgement again does not restart the timer.
    let old = buf.get_tail_and_age().1;
    assert!(old.nanos >= age.nanos + 10_000_000);
    let before = std::time::Instant::now();
    buf.set_tail(6).unwrap();
    let (tail, age) = buf.get_tail_and_age();
    assert_eq!(tail, 6);
    assert!(age.nanos <= before.elapsed().as_nanos());
    assert_eq!((buf.tail(), buf.head()), (6, 7));
    buf.set_window_size(9);
    assert_eq!(buf.window_size(), 9);
}
