use swim_doc::add1;
use swim_doc::safe_add;
use swim_doc::interp::Interpreter;
use swim_doc::interp::TickResult;
use swim_doc::screen::decimal_bytes;
use swim_doc::storage::FileDirectory;
use swim_doc::storage::FsError;
use swim_doc::storage::bytes_eq;

#[test]
fn wrapping_addition() {
    assert_eq!(safe_add::<10>(7, 5), 2);
    assert_eq!(safe_add::<10>(3, 4), 7);
    assert_eq!(add1::<33>(32), 0);
    assert_eq!(add1::<33>(5), 6);
}

#[test]
fn decimal_rendering() {
    assert_eq!(decimal_bytes(0), b"0".to_vec());
    assert_eq!(decimal_bytes(7), b"7".to_vec());
    assert_eq!(decimal_bytes(257), b"257".to_vec());
    assert_eq!(decimal_bytes(1000), b"1000".to_vec());
}

#[test]
fn byte_string_equality() {
    assert!(bytes_eq(&b"abc".to_vec(), &b"abc".to_vec()));
    assert!(!bytes_eq(&b"abc".to_vec(), &b"abd".to_vec()));
    assert!(!bytes_eq(&b"abc".to_vec(), &b"ab".to_vec()));
}

#[test]
fn directory_create_write_read() {
    let mut d = FileDirectory::new();
    let name = b"notes".to_vec();
    let fd = d.open_create(&name).expect("create failed");
    d.write(fd, &b"hello".to_vec()).expect("write failed");
    d.write(fd, &b" you".to_vec()).expect("append failed");
    d.close(fd).expect("close failed");
    let fd2 = d.open_read(&name).expect("open failed");
    let content = d.read(fd2).expect("read failed");
    assert_eq!(content, b"hello you".to_vec());
    d.close(fd2).expect("close failed");
    let names = d.list_directory();
    assert_eq!(names.len(), 1);
    assert_eq!(names[0], b"notes".to_vec());
}

#[test]
fn directory_create_truncates_existing() {
    let mut d = FileDirectory::new();
    let name = b"n".to_vec();
    d.save_file(&name, &b"first".to_vec()).expect("save failed");
    d.save_file(&name, &b"second".to_vec()).expect("rewrite failed");
    let content = d.read_file(&name).expect("read failed");
    assert_eq!(content, b"second".to_vec());
    assert_eq!(d.num_files(), 1);
}

#[test]
fn directory_error_variants() {
    let mut d = FileDirectory::new();
    assert_eq!(d.open_create(&Vec::new()), Err(FsError::NameEmpty));
    assert_eq!(d.open_create(&b"elevenbytes".to_vec()), Err(FsError::NameTooLong));
    assert_eq!(d.open_read(&b"ghost".to_vec()), Err(FsError::FileNotFound));
    assert!(matches!(d.read(42), Err(FsError::BadFileDescriptor)));
    assert_eq!(d.close(7), Err(FsError::BadFileDescriptor));
    let fd = d.open_create(&b"big".to_vec()).expect("create failed");
    let huge = vec![0x61u8; 16385];
    assert_eq!(d.write(fd, &huge), Err(FsError::FileTooBig));
    let almost = vec![0x61u8; 16384];
    assert_eq!(d.write(fd, &almost), Ok(()));
    for k in 0..30 {
        let name = format!("x{}", k).into_bytes();
        d.save_file(&name, &Vec::new()).expect("room remained");
    }
    assert_eq!(d.open_create(&b"full".to_vec()), Err(FsError::DirectoryFull));
}

#[test]
fn interpreter_prints_and_finishes() {
    let mut ip = Interpreter::new(&b"print(\"Hello, world!\")".to_vec());
    match ip.tick() {
        TickResult::Printed(line) => assert_eq!(line, b"Hello, world!".to_vec()),
        r => panic!("expected a printed line, got {:?}", describe(&r)),
    }
    assert!(matches!(ip.tick(), TickResult::Finished));
}

#[test]
fn interpreter_two_prints_two_ticks() {
    let mut ip = Interpreter::new(&b"print(1)\nprint(257)".to_vec());
    match ip.tick() {
        TickResult::Printed(line) => assert_eq!(line, b"1".to_vec()),
        _ => panic!("first print missing"),
    }
    match ip.tick() {
        TickResult::Printed(line) => assert_eq!(line, b"257".to_vec()),
        _ => panic!("second print missing"),
    }
    assert!(matches!(ip.tick(), TickResult::Finished));
}

#[test]
fn interpreter_awaits_and_resumes() {
    let mut ip = Interpreter::new(&b"x := input(\"n:\")\nprint((x + 1))".to_vec());
    assert!(matches!(ip.tick(), TickResult::AwaitInput));
    assert!(matches!(ip.tick(), TickResult::AwaitInput));
    ip.provide_input(&b"41".to_vec());
    assert!(matches!(ip.tick(), TickResult::Continuing));
    match ip.tick() {
        TickResult::Printed(line) => assert_eq!(line, b"42".to_vec()),
        _ => panic!("sum missing"),
    }
}

#[test]
fn interpreter_branches_and_loops() {
    let src = b"i := 0\nwhile (i < 3) {\n  i := (i + 1)\n}\nif (i == 3) {\n  print(\"yes\")\n} else {\n  print(\"no\")\n}".to_vec();
    let mut ip = Interpreter::new(&src);
    let mut printed: Vec<Vec<u8>> = Vec::new();
    for _ in 0..100 {
        match ip.tick() {
            TickResult::Printed(line) => printed.push(line),
            TickResult::Finished => break,
            TickResult::Continuing => {},
            TickResult::AwaitInput => panic!("unexpected input request"),
        }
    }
    assert_eq!(printed, vec![b"yes".to_vec()]);
}

#[test]
fn interpreter_halts_quietly_on_bad_source() {
    let mut ip = Interpreter::new(&b"term := (1.0 / 2.0)".to_vec());
    assert!(matches!(ip.tick(), TickResult::Finished));
    let mut ip2 = Interpreter::new(&b"x := (1 / 0)".to_vec());
    assert!(matches!(ip2.tick(), TickResult::Finished));
}

fn describe(r: &TickResult) -> &'static str {
    match r {
        TickResult::Continuing => "continuing",
        TickResult::Printed(_) => "printed",
        TickResult::Finished => "finished",
        TickResult::AwaitInput => "await-input",
    }
}
