use system_manager::error_codes::{CodeBook, Endpoint, EndpointEntry, EndpointField, ErrorGroup};
use system_manager::http::ApiError;

fn s(x: &str) -> String {
    x.to_string()
}

/// The catalogue of the `user` module: a public `Password` group numbered
/// from 20, a `Register` and a `Login` endpoint sharing it.
fn user_book() -> CodeBook {
    CodeBook::new(
        s("user"),
        10,
        vec![ErrorGroup { name: s("Password"), base: 20, items: vec![s("too_long"), s("too_short")] }],
        vec![
            Endpoint {
                name: s("Register"),
                entries: vec![
                    EndpointEntry::Shared(s("Password")),
                    EndpointEntry::Own(s("alredy_register")),
                    EndpointEntry::Own(s("alredy_register2")),
                ],
            },
            Endpoint {
                name: s("Login"),
                entries: vec![
                    EndpointEntry::Shared(s("Password")),
                    EndpointEntry::Own(s("alredy_register")),
                ],
            },
        ],
    )
    .expect("the user catalogue is valid")
}

fn own(f: &EndpointField) -> (u32, String) {
    match f {
        EndpointField::Own(e) => (e.code, e.msg.clone()),
        EndpointField::Shared(_) => panic!("expected an own error"),
    }
}

fn shared(f: &EndpointField) -> Vec<(u32, String)> {
    match f {
        EndpointField::Shared(v) => v.iter().map(|e| (e.code, e.msg.clone())).collect(),
        EndpointField::Own(_) => panic!("expected a shared group"),
    }
}

#[test]
fn t_code() {
    let book = user_book();
    let register = book.endpoint_fields(0);
    let login = book.endpoint_fields(1);
    println!("{:?}", register[0]);
    println!("{:?}", register[1]);
    println!("{:?}", login[1]);
    println!("{:?}", login[0]);
    let password = vec![(20, s("/user/Password/too_long")), (21, s("/user/Password/too_short"))];
    assert_eq!(shared(&register[0]), password);
    assert_eq!(own(&register[1]), (100000, s("/user/Register/alredy_register")));
    assert_eq!(own(&login[1]), (100100, s("/user/Login/alredy_register")));
    assert_eq!(shared(&login[0]), password);
    let csv = book.doc_csv();
    println!("{}", csv);
    assert_eq!(
        csv,
        "code, endpoint, msg\n\
         20,public,/user/Password/too_long\n\
         21,public,/user/Password/too_short\n\
         100000,Register,/user/Register/alredy_register\n\
         100010,Register,/user/Register/alredy_register2\n\
         100100,Login,/user/Login/alredy_register\n"
    );
}

#[test]
fn document_lists_public_errors_first() {
    let book = user_book();
    let doc = book.document();
    assert_eq!(
        doc,
        vec![
            (20, s("public"), s("/user/Password/too_long")),
            (21, s("public"), s("/user/Password/too_short")),
            (100000, s("Register"), s("/user/Register/alredy_register")),
            (100010, s("Register"), s("/user/Register/alredy_register2")),
            (100100, s("Login"), s("/user/Login/alredy_register")),
        ]
    );
    let public: Vec<u32> = book.doc_pub().iter().map(|d| d.err.code).collect();
    assert_eq!(public, vec![20, 21]);
    let login: Vec<u32> = book.doc_endpoint(1).iter().map(|d| d.err.code).collect();
    assert_eq!(login, vec![100100]);
    assert_eq!(book.err_list().len(), 5);
}

#[test]
fn group_errors_are_consecutive() {
    let book = user_book();
    let errs: Vec<(u32, String)> = book.group_errors(0).into_iter().map(|e| (e.code, e.msg)).collect();
    assert_eq!(errs, vec![(20, s("/user/Password/too_long")), (21, s("/user/Password/too_short"))]);
}

#[test]
fn unknown_shared_group_is_refused() {
    let book = CodeBook::new(
        s("user"),
        10,
        vec![],
        vec![Endpoint { name: s("Login"), entries: vec![EndpointEntry::Shared(s("Password"))] }],
    );
    assert!(book.is_none());
}

#[test]
fn overflowing_numbers_are_refused() {
    let group = CodeBook::new(
        s("m"),
        1,
        vec![ErrorGroup { name: s("G"), base: u32::MAX, items: vec![s("a"), s("b")] }],
        vec![],
    );
    assert!(group.is_none());
    let last_fits = CodeBook::new(
        s("m"),
        1,
        vec![ErrorGroup { name: s("G"), base: u32::MAX - 1, items: vec![s("a"), s("b")] }],
        vec![],
    );
    assert!(last_fits.is_some());
    // (index * 100 + 0) * 100 overflows for this index, but only numbers of
    // own errors are computed.
    let only_shared = CodeBook::new(
        s("m"),
        1_000_000,
        vec![ErrorGroup { name: s("G"), base: 1, items: vec![s("a")] }],
        vec![Endpoint { name: s("E"), entries: vec![EndpointEntry::Shared(s("G"))] }],
    );
    assert!(only_shared.is_some());
    let with_own = CodeBook::new(
        s("m"),
        1_000_000,
        vec![],
        vec![Endpoint { name: s("E"), entries: vec![EndpointEntry::Own(s("x"))] }],
    );
    assert!(with_own.is_none());
}

#[test]
fn own_errors_step_by_ten_per_endpoint() {
    let book = CodeBook::new(
        s("svc"),
        3,
        vec![],
        vec![
            Endpoint { name: s("A"), entries: vec![] },
            Endpoint {
                name: s("B"),
                entries: vec![
                    EndpointEntry::Own(s("x")),
                    EndpointEntry::Own(s("y")),
                    EndpointEntry::Own(s("z")),
                ],
            },
        ],
    )
    .unwrap();
    let codes: Vec<u32> = book.doc_endpoint(1).iter().map(|d| d.err.code).collect();
    assert_eq!(codes, vec![30100, 30110, 30120]);
    assert_eq!(book.doc_csv(), "code, endpoint, msg\n30100,B,/svc/B/x\n30110,B,/svc/B/y\n30120,B,/svc/B/z\n");
}

#[test]
fn error_code_becomes_business_error() {
    let book = user_book();
    let e = book.group_errors(0).into_iter().next().unwrap();
    let api: ApiError = ApiError::from(e);
    assert_eq!(api.code(), 20);
    assert_eq!(api.message(), "bad requeset. code = 20, err = /user/Password/too_long");
}

#[test]
fn repeated_names_are_refused() {
    let g = |name: &str, items: Vec<&str>| ErrorGroup {
        name: s(name),
        base: 1,
        items: items.into_iter().map(s).collect(),
    };
    // two groups of one name
    assert!(CodeBook::new(s("m"), 1, vec![g("P", vec!["a"]), g("P", vec!["b"])], vec![]).is_none());
    // an item twice in a group
    assert!(CodeBook::new(s("m"), 1, vec![g("P", vec!["a", "a"])], vec![]).is_none());
    // a group and an endpoint of one name
    assert!(CodeBook::new(s("m"), 1, vec![g("P", vec!["a"])], vec![Endpoint { name: s("P"), entries: vec![] }])
        .is_none());
    // an own error twice in an endpoint
    let twice_own = Endpoint {
        name: s("E"),
        entries: vec![EndpointEntry::Own(s("x")), EndpointEntry::Own(s("x"))],
    };
    assert!(CodeBook::new(s("m"), 1, vec![], vec![twice_own]).is_none());
    // a shared group twice in an endpoint
    let twice_shared = Endpoint {
        name: s("E"),
        entries: vec![EndpointEntry::Shared(s("P")), EndpointEntry::Shared(s("P"))],
    };
    assert!(CodeBook::new(s("m"), 1, vec![g("P", vec!["a"])], vec![twice_shared]).is_none());
    // an own error named like a shared group gives the same field `p`
    let mixed = Endpoint {
        name: s("E"),
        entries: vec![EndpointEntry::Shared(s("P")), EndpointEntry::Own(s("P"))],
    };
    assert!(CodeBook::new(s("m"), 1, vec![g("P", vec!["a"])], vec![mixed]).is_none());
    // two own errors that differ only in case give the same field
    let cased = Endpoint {
        name: s("E"),
        entries: vec![EndpointEntry::Own(s("Xy")), EndpointEntry::Own(s("xY"))],
    };
    assert!(CodeBook::new(s("m"), 1, vec![], vec![cased]).is_none());
    // two endpoints whose names agree in capitals share a static
    let e = |name: &str| Endpoint { name: s(name), entries: vec![] };
    assert!(CodeBook::new(s("m"), 1, vec![], vec![e("Login"), e("LOGIN")]).is_none());
    assert!(CodeBook::new(s("m"), 1, vec![], vec![e("Login"), e("Logout")]).is_some());
}

#[test]
fn names_must_be_identifiers() {
    let e = |name: &str| Endpoint { name: s(name), entries: vec![] };
    for bad in ["", "_", "1x", "a,b", "a b", "new\nline", "x-y"] {
        assert!(CodeBook::new(s("m"), 1, vec![], vec![e(bad)]).is_none(), "{bad:?}");
    }
    let ext = format!("{}{}", "exter", "n");
    for bad in ["fn", "match", "Self", "self", "type", ext.as_str()] {
        assert!(CodeBook::new(s("m"), 1, vec![], vec![e(bad)]).is_none(), "{bad:?}");
    }
    for good in ["_x", "x1", "Register", "alredy_register2", "Größe"] {
        assert!(CodeBook::new(s("m"), 1, vec![], vec![e(good)]).is_some(), "{good:?}");
    }
    let item = ErrorGroup { name: s("P"), base: 1, items: vec![s("ok"), s("not ok")] };
    assert!(CodeBook::new(s("m"), 1, vec![item], vec![]).is_none());
    let entry = Endpoint { name: s("E"), entries: vec![EndpointEntry::Own(s("a,b"))] };
    assert!(CodeBook::new(s("m"), 1, vec![], vec![entry]).is_none());
}
