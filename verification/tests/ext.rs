use empl::either::EitherOrBoth;
use empl::ext::array::ArrayExt;
use empl::ext::bytes::{BytesExt, Chars};
use empl::ext::iterator::{collect_array, containment, ZipAll};
use empl::ext::pair::{BiFunctor, BiTranspose};
use empl::lazy_rc::LazyRc;
use std::borrow::Cow;
use std::cmp::Ordering;

#[test]
fn pairs_map_each_side() {
    assert_eq!((1, "a").fst(), 1);
    assert_eq!((1, "a").snd(), "a");
    assert_eq!((1, 2).map_fst(|x| x + 1), (2, 2));
    assert_eq!((1, 2).map_snd(|x| x * 10), (1, 20));
    assert_eq!((1, 2).bimap(|x| x + 1, |y| y * 10), (2, 20));
    assert_eq!((1, 2).bi_map(|x| x - 1, |y| y), (0, 2));
}

#[test]
fn pairs_transpose() {
    assert_eq!((Some(1), Some(2)).bi_transpose(), Some((1, 2)));
    assert_eq!((Some(1), None::<i32>).bi_transpose(), None);
    assert_eq!((Ok::<i32, &str>(1), Ok::<i32, &str>(2)).bi_transpose(), Ok((1, 2)));
    assert_eq!((Err::<i32, &str>("a"), Err::<i32, &str>("b")).bi_transpose(), Err("a"));
    assert_eq!((Ok::<i32, &str>(1), Err::<i32, &str>("b")).bi_transpose(), Err("b"));
}

#[test]
fn arrays_transpose() {
    let ok: [Result<i32, u8>; 3] = [Ok(1), Ok(2), Ok(3)];
    assert_eq!(ok.transpose(), Ok([1, 2, 3]));
    let bad: [Result<i32, u8>; 3] = [Ok(1), Err(7), Err(8)];
    assert_eq!(bad.transpose(), Err(7));
}

#[test]
fn chars_read_the_first_character() {
    let bytes: Vec<u8> = "éa".as_bytes().to_vec();
    let mut chars = bytes.chars();
    assert_eq!(chars.next(), Some(Some('é')));
    assert_eq!(chars.0, "é".as_bytes());
    let mut empty = Chars(&[]);
    assert_eq!(empty.next(), None);
    let mut invalid = Chars(&[0xff, 0xff]);
    assert_eq!(invalid.next(), None);
}

#[test]
fn zip_all_pairs_until_both_end() {
    let mut z = ZipAll::new(vec![1, 2, 3], vec!['a']);
    assert_eq!(z.size_hint(), (3, Some(3)));
    assert_eq!(z.next(), Some(EitherOrBoth::Both(1, 'a')));
    assert_eq!(z.next(), Some(EitherOrBoth::Left(2)));
    assert_eq!(z.next_back(), Some(EitherOrBoth::Left(3)));
    assert_eq!(z.next(), None);
}

#[test]
fn lazy_rc_keeps_the_text() {
    let b = LazyRc::from(Cow::Borrowed("abc"));
    let o = LazyRc::from(Cow::Owned("abc".to_string()));
    assert!(matches!(b, LazyRc::Borrowed(_)));
    assert!(matches!(o, LazyRc::Owned(_)));
    assert_eq!(o.as_ref(), "abc");
    assert!(b.eq(&o));
    assert_eq!(o.clone().as_ref(), "abc");
}

#[test]
fn arrays_are_collected_only_at_their_length() {
    let items = [0, 1, 2];
    assert_eq!(collect_array::<i32, 3>(&items), Some([0, 1, 2]));
    assert_eq!(collect_array::<i32, 2>(&items), None);
    assert_eq!(collect_array::<i32, 4>(&items), None);
}

#[test]
fn containment_orders_by_what_is_shared() {
    assert_eq!(containment(&[1], &[1, 1]), Some(Ordering::Less));
    assert_eq!(containment(&[1, 1], &[1]), Some(Ordering::Greater));
    assert_eq!(containment(&[1], &[1]), Some(Ordering::Equal));
    assert_eq!(containment(&[1, 2], &[1, 3, 4]), None);
}
