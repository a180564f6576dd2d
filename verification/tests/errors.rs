use imp::error::{Exception, IoErrorKind, PathError, SystemError};

#[test]
fn system_errors() {
    let e = SystemError::from_io(IoErrorKind::PermissionDenied, "denied".to_string(), "read", None);
    assert_eq!(e.code, "EACCES");
    assert_eq!(e.syscall, "read");
    assert_eq!(e.to_string(), "EACCES: denied");
    assert_eq!(SystemError::from_io(IoErrorKind::AlreadyExists, String::new(), "mkdir", None).code, "EEXIST");
    assert_eq!(SystemError::from_io(IoErrorKind::InvalidInput, String::new(), "open", None).code, "EINVAL");
    assert_eq!(SystemError::from_io(IoErrorKind::NotFound, String::new(), "open", None).code, "ENOENT");
}

#[test]
fn exceptions_and_path_errors() {
    assert_eq!(Exception("boom".to_string()).to_string(), "boom");
    match PathError::from_io(IoErrorKind::NotFound, "x".to_string(), "resolve") {
        PathError::System(s) => {
            assert_eq!(s.code, "ENOENT");
            assert_eq!(s.path, None);
        }
        _ => panic!(),
    }
    assert_eq!(PathError::invalid_path("bad".to_string()), PathError::InvalidPath("bad".to_string()));
}
