use rustlab::arith::add;
use std::rc::Rc;

fn length(s: String) -> usize {
    s.len()
}

fn rc_length(s: Rc<String>) -> usize {
    s.len()
}

fn count_files(path: &String) -> usize {
    path.len()
}

#[test]
fn basic_math_stuffs() {
    assert_eq!(add(2, 2), 4);
    assert_eq!(2 + 2, 4);
    assert_eq!(3.14 + 22.86, 26_f32);
    assert_eq!(2_i32.pow(2), 4);
    assert_eq!(4_f32.sqrt(), 2_f32);
}

#[test]
fn conditionals() {
    let i = 30;
    if i < 20 {
        assert!(i < 20);
    } else if i > 2 {
        assert!(i > 2);
    } else {
        assert_eq!(i, 2);
    }
}

#[test]
fn more_conditionals() {
    let my_option = Some(10);

    if let Some(unpacked) = my_option {
        assert_eq!(unpacked, 10);
    }

    let mut other_option = Some(2);
    while let Some(unpacked) = other_option {
        other_option = if unpacked > 0 {
            Some(unpacked - 1)
        } else {
            None
        }
    }
    assert_eq!(other_option, None);
}

#[test]
#[allow(unused_assignments)]
fn loops() {
    let mut i = 42;
    let mut broke = false;

    loop {
        i -= 1;
        if i < 2 {
            broke = true;
            break;
        } else if i > 2 {
            continue;
        }
    }
    assert!(broke);

    let mut iterations: u32 = 0;

    let total_squared = loop {
        iterations += 1;

        if iterations >= 10 {
            break iterations.pow(2);
        }
    };
    assert_eq!(total_squared, 100);

    for i in 0..10 {
        assert!(i >= 0 && i < 10);
    }

    for v in vec![1, 1, 1, 1].iter() {
        assert_eq!(v, &1);
    }
}

#[test]
fn option_working_with_values() {
    let mut o = Some(42);

    let nr = o.take();
    assert!(o.is_none());
    assert_eq!(nr, Some(42));

    let mut o = Some(42);
    assert_eq!(o.replace(1535), Some(42));
    assert_eq!(o, Some(1535));

    let o = Some(1535);
    assert_eq!(o.map(|v| format!("{:#x}", v)), Some("0x5ff".to_owned()));

    let o = Some(1532);
    match o.ok_or("Nope") {
        Ok(nr) => assert_eq!(nr, 1532),
        Err(_) => assert!(false),
    }
}

#[test]
fn option_sequentials() {
    let a = Some(42);
    let b = Some(1532);

    assert_eq!(a.and(b), Some(1532));
    assert_eq!(a.and(Option::<i32>::None), None);
    assert_eq!(a.or(None), Some(42));
    assert_eq!(a.or(b), Some(42));
    assert_eq!(None.or(a), Some(42));

    let new_a = a.and_then(|v| Some(v + 100)).filter(|&v| v != 42);
    assert_eq!(new_a, Some(142));
    let mut a_iter = new_a.iter();
    assert_eq!(a_iter.next(), Some(&142));
    assert_eq!(a_iter.next(), None);
}

#[test]
fn cloning() {
    let s = "abcdef".to_owned();
    assert_eq!(length(s), 6);

    let s = "abcdef".to_owned();
    for _ in 0..10 {
        assert_eq!(length(s.clone()), 6);
    }
}

#[test]
fn refcounting() {
    let s = Rc::new("abcdef".to_owned());
    assert_eq!(rc_length(s.clone()), 6);

    for _ in 0..10 {
        assert_eq!(rc_length(s.clone()), 6);
    }
}

#[test]
fn getting_the_iterator() {
    let v = vec![10, 10, 10];
    let mut iter = v.iter();

    assert_eq!(iter.next(), Some(&10));
    assert_eq!(iter.next(), Some(&10));
    assert_eq!(iter.next(), Some(&10));

    for i in v {
        assert_eq!(i, 10);
    }
}

#[test]
fn data_transformations() {
    let v = vec![10, 10, 10];
    let hexed = v.iter().map(|i| format!("{:x}", i));
    assert_eq!(
        hexed.collect::<Vec<String>>(),
        vec!["a".to_string(), "a".to_string(), "a".to_string()]
    );

    assert_eq!(v.iter().fold(0, |p, c| p + c), 30);

    let dirs = vec![
        "/home/alice".to_string(),
        "/home/bob".to_string(),
        "/home/carl".to_string(),
        "/home/debra".to_string(),
    ];

    let file_counter = dirs.iter().map(count_files);

    let dir_file_counts: Vec<(&String, usize)> = dirs.iter().zip(file_counter).collect();

    assert_eq!(
        dir_file_counts,
        vec![
            (&"/home/alice".to_string(), 11),
            (&"/home/bob".to_string(), 9),
            (&"/home/carl".to_string(), 10),
            (&"/home/debra".to_string(), 11),
        ]
    )
}
