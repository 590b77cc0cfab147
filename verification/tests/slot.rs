use reactor_core::async_io::slot::Slot;

#[test]
fn a_new_slot_is_empty() {
    let mut slot: Slot<u32> = Slot::new();
    assert!(slot.is_empty());
    assert_eq!(slot.peek(), None);
    assert_eq!(slot.take(), None);
    assert!(slot.is_empty());
}

#[test]
fn a_value_is_written_once_and_read_once() {
    let mut slot = Slot::new();
    assert_eq!(slot.put(7), Ok(()));
    assert!(!slot.is_empty());
    assert_eq!(slot.peek(), Some(&7));
    assert_eq!(slot.take(), Some(7));
    assert_eq!(slot.take(), None);
    assert!(slot.is_empty());
}

#[test]
fn a_full_slot_refuses_a_second_write() {
    let mut slot = Slot::new();
    assert_eq!(slot.put("first"), Ok(()));
    assert_eq!(slot.put("second"), Err("second"));
    assert_eq!(slot.take(), Some("first"));
    assert_eq!(slot.put("third"), Ok(()));
    assert_eq!(slot.take(), Some("third"));
}

#[test]
fn what_is_read_is_what_was_written_in_order() {
    let mut slot = Slot::new();
    let mut written = Vec::new();
    let mut read = Vec::new();
    let mut seed: u32 = 12345;
    for value in 0u32..2000 {
        seed = seed.wrapping_mul(1103515245).wrapping_add(12345);
        if (seed >> 16) % 3 == 0 {
            if let Some(v) = slot.take() {
                read.push(v);
            }
        } else if slot.put(value).is_ok() {
            written.push(value);
        }
    }
    if let Some(v) = slot.take() {
        read.push(v);
    }
    assert_eq!(read, written);
}

#[test]
fn many_offloads_lose_and_repeat_nothing() {
    let slots: Vec<std::sync::Arc<std::sync::Mutex<Slot<usize>>>> =
        (0..64).map(|_| std::sync::Arc::new(std::sync::Mutex::new(Slot::new()))).collect();
    let (done, results) = std::sync::mpsc::channel();
    for (k, slot) in slots.iter().enumerate() {
        let slot = slot.clone();
        let done = done.clone();
        // A stand-in for the background operation: it owns its slot for one write.
        let write = move || {
            assert!(slot.lock().unwrap().put(k * k).is_ok());
            assert!(slot.lock().unwrap().put(0).is_err());
            done.send(k).unwrap();
        };
        write();
    }
    let mut seen = vec![0usize; 64];
    for _ in 0..64 {
        let k = results.try_recv().unwrap();
        let value = slots[k].lock().unwrap().take();
        assert_eq!(value, Some(k * k));
        assert_eq!(slots[k].lock().unwrap().take(), None);
        seen[k] += 1;
    }
    assert!(seen.iter().all(|&n| n == 1));
}
