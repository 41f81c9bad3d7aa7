use pantheon::cask::{BufHeader, Buffer, BufferPool, Pod, TryAcquireError};

#[derive(Debug, Clone, Copy, PartialEq)]
struct Sample(u32);

impl Pod for Sample {
    fn zeroed() -> Self {
        Sample(0)
    }
}

#[derive(Debug, Clone, Copy, PartialEq)]
struct AudioSample {
    left: f32,
    right: f32,
}

impl Pod for AudioSample {
    fn zeroed() -> Self {
        AudioSample { left: 0.0, right: 0.0 }
    }
}

#[test]
fn test_buffer_creation_and_access() {
    let mut buffer = Buffer::<Sample>::with_capacity(4);
    assert_eq!(buffer.capacity_bytes(), 4 * std::mem::size_of::<Sample>());
    assert_eq!(buffer.len_bytes(), 0);
    assert!(buffer.is_empty());
    assert!(!buffer.is_full());

    let (header, data) = buffer.raw_split_mut();
    assert_eq!(header.len_bytes, 0);
    assert_eq!(header.capacity_bytes, 4 * std::mem::size_of::<Sample>());
    assert_eq!(data.len(), 4);
    let (header, data) = buffer.split_mut();
    assert_eq!(header.len_bytes, 0);
    assert_eq!(header.capacity_bytes, 4 * std::mem::size_of::<Sample>());
    assert_eq!(data.len(), 0); // Only the initialized part of the buffer (0)

    // Manually set data to test split functionality
    header.len_bytes = 2 * std::mem::size_of::<Sample>();
    header.len_t = 2;

    let (_, data) = buffer.split_mut();
    assert_eq!(data.len(), 2);
    data[0] = Sample(10);
    data[1] = Sample(20);

    let (header_read, data_read) = buffer.split();
    assert_eq!(header_read.len_t, 2);
    assert_eq!(data_read[0], Sample(10));
    assert_eq!(data_read[1], Sample(20));
}

#[test]
fn test_buffer_push_pop() {
    let mut buffer = Buffer::<Sample>::with_capacity(3);

    buffer.push(Sample(10));
    buffer.push(Sample(20));
    buffer.push(Sample(30));

    assert_eq!(buffer.len(), 3);
    assert!(buffer.is_full());
    assert!(!buffer.is_empty());

    let data = buffer.data();
    assert_eq!(data[0], Sample(10));
    assert_eq!(data[1], Sample(20));
    assert_eq!(data[2], Sample(30));

    assert_eq!(buffer.pop(), Some(Sample(30)));
    assert_eq!(buffer.pop(), Some(Sample(20)));
    assert_eq!(buffer.len(), 1);

    assert_eq!(buffer.pop(), Some(Sample(10)));
    assert_eq!(buffer.len(), 0);
    assert!(buffer.is_empty());

    assert_eq!(buffer.pop(), None);
}

#[test]
fn test_buffer_resize() {
    let mut buffer = Buffer::<Sample>::with_capacity(5);
    buffer.push(Sample(1));
    buffer.push(Sample(2));
    buffer.push(Sample(3));

    buffer.resize(2);
    assert_eq!(buffer.len(), 2);

    buffer.resize(4);
    assert_eq!(buffer.len(), 4);
    // After resize, new elements should be zeroed
    let data = buffer.data();
    assert_eq!(data[0], Sample(0)); // Should be zeroed due to resize
    assert_eq!(data[1], Sample(0));
}

#[test]
fn test_buffer_copy_from_slice() {
    let mut buffer = Buffer::<Sample>::with_capacity(5);
    let source = [Sample(10), Sample(20), Sample(30)];

    buffer.copy_from_slice(&source);
    assert_eq!(buffer.len(), 3);

    let data = buffer.data();
    assert_eq!(data[0], Sample(10));
    assert_eq!(data[1], Sample(20));
    assert_eq!(data[2], Sample(30));
}

#[test]
fn test_buffer_clear() {
    let mut buffer = Buffer::<Sample>::with_capacity(3);
    buffer.push(Sample(10));
    buffer.push(Sample(20));

    assert_eq!(buffer.len(), 2);
    buffer.clear();
    assert_eq!(buffer.len(), 0);
    assert_eq!(buffer.len_bytes(), 0);
    assert!(buffer.is_empty());
}

#[test]
fn test_buffer_with_different_types() {
    let mut buffer = Buffer::<AudioSample>::with_capacity(2);
    let sample1 = AudioSample { left: 0.5, right: -0.3 };
    let sample2 = AudioSample { left: 0.8, right: 0.1 };

    buffer.push(sample1);
    buffer.push(sample2);

    assert_eq!(buffer.len(), 2);
    let data = buffer.data();
    assert_eq!(data[0], sample1);
    assert_eq!(data[1], sample2);
}

#[test]
fn test_buffer_pool_creation() {
    let pool = BufferPool::<Sample>::with_capacity(3, 8);
    assert_eq!(pool.capacity(), 3);
    assert_eq!(pool.available_buffers(), 3);
}

#[test]
fn test_empty_buffer_pool() {
    let pool = BufferPool::<Sample>::empty(1);
    assert_eq!(pool.capacity(), 0);
    assert_eq!(pool.available_buffers(), 0);
}

#[test]
fn test_expand_pool() {
    let mut pool = BufferPool::<Sample>::with_capacity(2, 4);
    assert_eq!(pool.capacity(), 2);
    assert_eq!(pool.available_buffers(), 2);

    pool.expand_by(3);
    assert_eq!(pool.capacity(), 5);
    assert_eq!(pool.available_buffers(), 5);
}

#[test]
fn test_try_get_buffer_success() {
    let mut pool = BufferPool::<Sample>::with_capacity(1, 2);
    let result = pool.try_get_buffer();
    assert!(result.is_ok());
    assert_eq!(pool.available_buffers(), 0);
}

#[test]
fn test_try_get_buffer_failure() {
    let mut pool = BufferPool::<Sample>::with_capacity(0, 2);
    let result = pool.try_get_buffer();
    assert!(result.is_err());
    assert_eq!(pool.available_buffers(), 0);
}

#[test]
fn test_push_buffer_to_pool() {
    let mut pool = BufferPool::<Sample>::empty(1);
    assert_eq!(pool.capacity(), 0);

    let buffer = Buffer::<Sample>::with_capacity(4);
    pool.push_buffer(buffer);

    assert_eq!(pool.capacity(), 1);
    assert_eq!(pool.available_buffers(), 1);
}

#[test]
fn test_buffer_memory_layout() {
    let buffer = Buffer::<Sample>::with_capacity(3);
    let header_size = std::mem::size_of::<BufHeader<Sample>>();
    let data_size = 3 * std::mem::size_of::<Sample>();

    // Verify the header and the storage slots together take the header and the data size
    assert_eq!(buffer.storage_len_bytes(), header_size + data_size);

    // Verify header is at the beginning
    let header = buffer.header();
    assert_eq!(header.capacity_bytes, data_size);
    assert_eq!(header.len_bytes, 0);
}

#[test]
fn test_large_buffer() {
    let large_size = 1000;
    let mut buffer = Buffer::<Sample>::with_capacity(large_size);

    for i in 0..large_size / 2 {
        buffer.push(Sample(i as u32));
    }

    assert_eq!(buffer.len(), large_size / 2);
    assert!(!buffer.is_full());

    let data = buffer.data();
    for i in 0..large_size / 2 {
        assert_eq!(data[i], Sample(i as u32));
    }
}

#[test]
fn test_capacity_t_and_len_t_on_creation() {
    let buffer = Buffer::<Sample>::with_capacity(5);
    let header = buffer.header();

    assert_eq!(header.capacity_t, 5);
    assert_eq!(header.capacity_bytes, 5 * std::mem::size_of::<Sample>());
    assert_eq!(header.len_t, 0);
    assert_eq!(header.len_bytes, 0);
}

#[test]
fn test_len_t_increases_on_push() {
    let mut buffer = Buffer::<Sample>::with_capacity(3);
    buffer.push(Sample(1));
    buffer.push(Sample(2));

    let header = buffer.header();
    assert_eq!(header.len_t, 2);
    assert_eq!(header.len_bytes, 2 * std::mem::size_of::<Sample>());
}

#[test]
fn test_len_t_decreases_on_pop() {
    let mut buffer = Buffer::<Sample>::with_capacity(3);
    buffer.push(Sample(1));
    buffer.push(Sample(2));
    buffer.pop();

    let header = buffer.header();
    assert_eq!(header.len_t, 1);
    assert_eq!(header.len_bytes, std::mem::size_of::<Sample>());
}

#[test]
fn test_len_t_and_capacity_t_on_resize() {
    let mut buffer = Buffer::<Sample>::with_capacity(5);
    buffer.push(Sample(10));
    buffer.push(Sample(20));
    buffer.push(Sample(30));

    buffer.resize(2);
    let header = buffer.header();
    assert_eq!(header.len_t, 2);
    assert_eq!(header.len_bytes, 2 * std::mem::size_of::<Sample>());

    buffer.resize(5);
    let header = buffer.header();
    assert_eq!(header.len_t, 5);
    assert_eq!(header.len_bytes, 5 * std::mem::size_of::<Sample>());
}

#[test]
fn test_len_t_on_clear() {
    let mut buffer = Buffer::<Sample>::with_capacity(3);
    buffer.push(Sample(1));
    buffer.push(Sample(2));
    buffer.clear();

    let header = buffer.header();
    assert_eq!(header.len_t, 0);
    assert_eq!(header.len_bytes, 0);
}

#[test]
fn test_copy_from_slice_sets_len_t() {
    let mut buffer = Buffer::<Sample>::with_capacity(4);
    let slice = [Sample(1), Sample(2), Sample(3)];

    buffer.copy_from_slice(&slice);

    let header = buffer.header();
    assert_eq!(header.len_t, 3);
    assert_eq!(header.len_bytes, 3 * std::mem::size_of::<Sample>());
}

#[test]
fn test_copy_at_most_n_sets_len_t() {
    let mut buffer = Buffer::<Sample>::with_capacity(5);
    let vec = vec![Sample(5), Sample(6)];

    let copied = buffer.copy_at_most_n(vec.clone(), 4);

    let header = buffer.header();
    assert_eq!(copied, 2);
    assert_eq!(header.len_t, 2);
    assert_eq!(header.len_bytes, 2 * std::mem::size_of::<Sample>())
}

// Further cases.

#[test]
fn pop_returns_what_push_added() {
    let mut buffer = Buffer::<u32>::with_capacity(2);
    buffer.push(7);
    buffer.push(9);
    assert_eq!(buffer.pop(), Some(9));
    assert_eq!(buffer.len(), 1);
    assert_eq!(buffer.data()[0], 7);
    assert_eq!(buffer.capacity(), 2);
}

#[test]
fn copy_at_most_n_zeroes_up_to_n_and_keeps_the_rest() {
    let mut buffer = Buffer::<u32>::with_capacity(6);
    buffer.copy_from_slice(&[1, 2, 3, 4, 5, 6]);
    let copied = buffer.copy_at_most_n(vec![9], 4);
    assert_eq!(copied, 1);
    assert_eq!(buffer.len(), 1);
    assert_eq!(buffer.data(), &[9, 0, 0, 0, 5, 6]);
}

#[test]
fn copy_at_most_n_is_bounded_by_n_and_capacity() {
    let mut buffer = Buffer::<u8>::with_capacity(3);
    assert_eq!(buffer.copy_at_most_n(vec![1, 2, 3, 4, 5], 10), 3);
    assert_eq!(buffer.data(), &[1, 2, 3]);
    assert_eq!(buffer.copy_at_most_n(vec![4, 5, 6], 2), 2);
    assert_eq!(buffer.data(), &[4, 5, 3]);
    assert_eq!(buffer.len_bytes(), 2);
}

#[test]
fn copy_from_slice_zeroes_the_tail() {
    let mut buffer = Buffer::<u16>::with_capacity(4);
    buffer.copy_from_slice(&[1, 2, 3, 4]);
    buffer.copy_from_slice(&[8]);
    assert_eq!(buffer.data(), &[8, 0, 0, 0]);
    assert_eq!(buffer.len(), 1);
}

#[test]
fn data_mut_covers_the_contents_only() {
    let mut buffer = Buffer::<u32>::with_capacity(4);
    buffer.push(1);
    buffer.push(2);
    let data = buffer.data_mut();
    assert_eq!(data.len(), 2);
    data[1] = 5;
    assert_eq!(buffer.data(), &[1, 5, 0, 0]);
    let header = buffer.header_mut();
    header.update_length(3);
    assert_eq!(buffer.len_bytes(), 12);
    assert_eq!(buffer.raw_data_mut().len(), 4);
}

#[test]
fn header_updates_keep_bytes_in_step() {
    let mut buffer = Buffer::<u64>::with_capacity(2);
    let header = buffer.header_mut();
    header.update_capacity(3);
    assert_eq!(header.capacity_t, 3);
    assert_eq!(header.capacity_bytes, 24);
    assert_eq!(header.len_t, 0);
}

#[test]
fn pool_hands_out_oldest_first_and_takes_back_cleared() {
    let mut pool = BufferPool::<u32>::empty(2);
    let mut first = Buffer::<u32>::with_capacity(2);
    first.push(11);
    pool.push_buffer(first);
    pool.push_buffer(Buffer::<u32>::with_capacity(3));

    let mut lent = pool.try_get_buffer().unwrap();
    assert_eq!(lent.buffer().data()[0], 11);
    assert_eq!(pool.available_buffers(), 1);
    lent.buffer_mut().push(12);
    pool.return_buffer(lent);
    assert_eq!(pool.available_buffers(), 2);
    assert_eq!(pool.capacity(), 2);

    let second = pool.try_get_buffer().unwrap();
    assert_eq!(second.buffer().capacity(), 3);
    let returned = pool.try_get_buffer().unwrap();
    assert!(returned.buffer().is_empty());
    assert_eq!(returned.buffer().data(), &[0, 0]);
    assert_eq!(returned.buffer().len_bytes(), 0);
    assert!(matches!(pool.try_get_buffer(), Err(TryAcquireError::NoPermits)));
}

#[test]
fn fresh_pool_buffers_have_the_pool_size() {
    let mut pool = BufferPool::<u8>::with_capacity(1, 5);
    pool.expand_by(1);
    let a = pool.try_get_buffer().unwrap();
    let b = pool.try_get_buffer().unwrap();
    assert_eq!(a.buffer().capacity(), 5);
    assert_eq!(b.buffer().capacity_bytes(), 5);
    assert_eq!(pool.available_buffers(), 0);
    assert_eq!(pool.capacity(), 2);
}

#[test]
fn test_get_and_return_buffer() {
    let mut pool = BufferPool::<Sample>::with_capacity(1, 2);
    let mut buf_with_permit = pool.try_get_buffer().unwrap();

    let buffer = buf_with_permit.buffer_mut();
    buffer.push(Sample(123));
    assert_eq!(buffer.len(), 1);
    assert_eq!(buffer.data()[0], Sample(123));

    assert_eq!(pool.available_buffers(), 0);

    pool.return_buffer(buf_with_permit);
    assert_eq!(pool.available_buffers(), 1);
}

#[test]
fn test_multiple_buffers() {
    let mut pool = BufferPool::<Sample>::with_capacity(3, 4);

    let buf1 = pool.try_get_buffer().unwrap();
    let buf2 = pool.try_get_buffer().unwrap();
    let buf3 = pool.try_get_buffer().unwrap();

    assert_eq!(pool.available_buffers(), 0);

    pool.return_buffer(buf1);
    assert_eq!(pool.available_buffers(), 1);

    pool.return_buffer(buf2);
    pool.return_buffer(buf3);
    assert_eq!(pool.available_buffers(), 3);
}

#[test]
fn test_buffer_cleared_on_return() {
    let mut pool = BufferPool::<Sample>::with_capacity(1, 3);

    let mut buf_with_permit = pool.try_get_buffer().unwrap();
    let buffer = buf_with_permit.buffer_mut();
    buffer.push(Sample(100));
    buffer.push(Sample(200));
    assert_eq!(buffer.len(), 2);

    pool.return_buffer(buf_with_permit);

    let buf_with_permit = pool.try_get_buffer().unwrap();
    let buffer = buf_with_permit.buffer();
    assert_eq!(buffer.len_bytes(), 0);
    assert!(buffer.is_empty());
}

#[test]
fn test_buffer_reuse_maintains_capacity() {
    let mut pool = BufferPool::<Sample>::with_capacity(1, 5);

    let mut buf1 = pool.try_get_buffer().unwrap();
    buf1.buffer_mut().push(Sample(1));
    buf1.buffer_mut().push(Sample(2));
    pool.return_buffer(buf1);

    let buf2 = pool.try_get_buffer().unwrap();
    let buffer = buf2.buffer();
    assert_eq!(buffer.capacity_bytes(), 5 * std::mem::size_of::<Sample>());
    assert_eq!(buffer.len_bytes(), 0);
    assert!(buffer.is_empty());
}

#[test]
fn test_len_t_reset_on_buffer_return() {
    let mut pool = BufferPool::<Sample>::with_capacity(1, 3);

    let mut buffer_with_permit = pool.try_get_buffer().unwrap();
    buffer_with_permit.buffer_mut().push(Sample(1));
    assert_eq!(buffer_with_permit.buffer().header().len_t, 1);

    pool.return_buffer(buffer_with_permit);

    let buffer_with_permit = pool.try_get_buffer().unwrap();
    assert_eq!(buffer_with_permit.buffer().header().len_t, 0);
    assert_eq!(buffer_with_permit.buffer().header().len_bytes, 0);
}

#[test]
fn pool_remembers_its_buffer_size() {
    let pool = BufferPool::<u16>::empty(7);
    assert_eq!(pool.buffer_size(), 7);
    assert_eq!(BufferPool::<u16>::with_capacity(2, 9).buffer_size(), 9);
}

#[test]
fn taking_and_giving_back_rotates_the_buffers() {
    let mut pool = BufferPool::<u8>::empty(1);
    let mut a = Buffer::<u8>::with_capacity(1);
    a.push(5);
    pool.push_buffer(a);
    pool.push_buffer(Buffer::<u8>::with_capacity(2));
    let taken = pool.try_get_buffer().unwrap();
    pool.return_buffer(taken);
    assert_eq!(pool.available_buffers(), 2);
    assert_eq!(pool.try_get_buffer().unwrap().buffer().capacity(), 2);
    let back = pool.try_get_buffer().unwrap();
    assert_eq!(back.buffer().capacity(), 1);
    assert_eq!(back.buffer().data(), &[0]);
}
