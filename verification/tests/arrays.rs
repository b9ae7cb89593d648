use functor_derive::functor::Functor;
use std::sync::atomic::AtomicBool;

struct DropCheck<'a> {
    dropped: &'a AtomicBool,
    should_fail: bool,
}

impl Drop for DropCheck<'_> {
    fn drop(&mut self) {
        self.dropped.store(true, std::sync::atomic::Ordering::Relaxed);
    }
}

#[test]
fn array_fmap() {
    let x = [40usize, 41, 42];
    assert_eq!(x.fmap(|v: usize| v as u64), [40u64, 41, 42]);
}

#[test]
fn try_array() {
    let x = ["1".to_string(), "2".to_string(), "3".to_string()];
    let v = x.try_fmap(|x| x.parse::<usize>());

    assert_eq!(v, Ok([1, 2, 3]));
}

#[test]
fn try_array_fail() {
    let x = ["1".to_string(), "two".to_string(), "3".to_string()];
    let v = x.try_fmap(|x| x.parse::<usize>());

    assert!(v.is_err());
}

#[test]
fn try_array_drops() {
    let dropped_1 = AtomicBool::new(false);
    let dropped_2 = AtomicBool::new(false);

    let x = [
        DropCheck {
            dropped: &dropped_1,
            should_fail: false,
        },
        DropCheck {
            dropped: &dropped_2,
            should_fail: true,
        },
    ];

    let drop_check_array = x.try_fmap(|drop_check| {
        if drop_check.should_fail {
            Err(())
        } else {
            Ok(drop_check)
        }
    });

    assert!(drop_check_array.is_err());
    // Dropped because it had already been transformed when the failure hit.
    assert!(dropped_1.load(std::sync::atomic::Ordering::Relaxed));
    // Dropped inside the failing application.
    assert!(dropped_2.load(std::sync::atomic::Ordering::Relaxed));
}
