use lumina::memory::{format_bytes, memory_stats, Pool, TrackedAllocator};

#[test]
fn byte_labels() {
    assert_eq!(format_bytes(0), "0 B");
    assert_eq!(format_bytes(512), "512 B");
    assert_eq!(format_bytes(1023), "1023 B");
    assert_eq!(format_bytes(1024), "1.00 KB");
    assert_eq!(format_bytes(1536), "1.50 KB");
    assert_eq!(format_bytes(1048576), "1.00 MB");
    assert_eq!(format_bytes(1073741824), "1.00 GB");
    assert_eq!(format_bytes(1099511627776), "1.00 TB");
    assert_eq!(format_bytes(2048 * 1099511627776), "2048.00 TB");
}

#[test]
fn byte_labels_agree_with_float_formatting() {
    let units = ["B", "KB", "MB", "GB", "TB"];
    let mut samples: Vec<usize> = vec![1152, 1029, 5 * 1024 + 5, 123_456_789, usize::MAX, usize::MAX - 1000];
    let mut x: usize = 1;
    for _ in 0..200 {
        x = x.wrapping_mul(6364136223846793005).wrapping_add(1442695040888963407);
        samples.push(x >> (x % 60));
    }
    for &bytes in &samples {
        let mut size = bytes as f64;
        let mut unit = 0;
        while size >= 1024.0 && unit < units.len() - 1 {
            size /= 1024.0;
            unit += 1;
        }
        let expected = if unit == 0 {
            format!("{} {}", bytes, units[unit])
        } else {
            format!("{:.2} {}", size, units[unit])
        };
        assert_eq!(format_bytes(bytes), expected, "bytes = {}", bytes);
    }
}

#[test]
fn stats_are_zero_without_tracking() {
    let s = memory_stats();
    assert_eq!(s.allocated_bytes, 0);
    assert_eq!(s.peak_allocated_bytes, 0);
    assert_eq!(s.allocation_count, 0);
}

#[test]
fn tracked_allocator_counts() {
    let mut t = TrackedAllocator::new();
    t.record_alloc(100);
    t.record_alloc(50);
    t.record_dealloc(100);
    assert_eq!(t.allocated_bytes(), 50);
    assert_eq!(t.peak_allocated_bytes(), 150);
    assert_eq!(t.allocation_count(), 2);
    t.reset_stats();
    assert_eq!(t.peak_allocated_bytes(), 50);
    assert_eq!(t.allocation_count(), 0);
}

#[test]
fn pool_reuses_released_values_last_first() {
    let mut pool = Pool::new(|| 7u32);
    assert!(pool.is_empty());
    assert_eq!(pool.acquire(), 7);
    pool.release(1);
    pool.release(2);
    assert_eq!(pool.len(), 2);
    assert_eq!(pool.acquire(), 2);
    assert_eq!(pool.acquire(), 1);
    assert_eq!(pool.acquire(), 7);
    let mut pool = Pool::with_capacity(4, || String::from("x"));
    pool.release(String::from("a"));
    pool.clear();
    assert_eq!(pool.acquire(), "x");
}

#[test]
fn releasing_what_was_recorded_restores_the_count_even_when_it_wraps() {
    let mut t = TrackedAllocator::new();
    t.record_alloc(10);
    t.record_alloc(usize::MAX);
    assert_eq!(t.allocated_bytes(), 9);
    t.record_dealloc(usize::MAX);
    assert_eq!(t.allocated_bytes(), 10);
}
