use foundery_os_core::principal::{contains_principal, Principal};

#[test]
fn principals_compare_by_bytes() {
    let a = Principal::from_slice(&[1, 2, 3]);
    let b = Principal::from_slice(&[1, 2, 3]);
    let c = Principal::from_slice(&[1, 2]);
    assert!(a.same_as(&b));
    assert_eq!(a, b);
    assert!(!a.same_as(&c));
    assert_ne!(a, c);
    assert_eq!(a.as_slice(), &[1, 2, 3]);
    assert_eq!(a.clone(), a);
}

#[test]
fn anonymous_identity_is_recognised() {
    assert!(Principal::anonymous().is_anonymous());
    assert_eq!(Principal::anonymous().as_slice(), &[4]);
    assert!(!Principal::from_slice(&[4, 0]).is_anonymous());
    assert!(!Principal::from_slice(&[]).is_anonymous());
    assert!(Principal::from_slice(&[4]).is_anonymous());
}

#[test]
fn list_membership_by_bytes() {
    let list = vec![Principal::from_slice(&[7]), Principal::from_slice(&[8, 9])];
    assert!(contains_principal(&list, &Principal::from_slice(&[8, 9])));
    assert!(!contains_principal(&list, &Principal::from_slice(&[9])));
    assert!(!contains_principal(&Vec::new(), &Principal::from_slice(&[7])));
}
