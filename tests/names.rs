use unseemly::assoc::Assoc;
use unseemly::name::{Interner, Name};

#[test]
fn interning_gives_one_name_per_string() {
    let mut names = Interner::new();
    let a = names.intern("alpha");
    let b = names.intern("beta");
    let a2 = names.intern("alpha");
    assert_eq!(a, a2);
    assert_ne!(a, b);
    assert_eq!(names.len(), 2);
    assert_eq!(names.text(b).map(|s| s.as_str()), Some("beta"));
    assert_eq!(names.text(Name::Gen(0)), None);
}

#[test]
fn lookup_finds_the_most_recent_binding() {
    let mut names = Interner::new();
    let a = names.intern("a");
    let b = names.intern("b");
    let env = Assoc::new().extend(a, 1u32).extend(b, 2u32).extend(a, 3u32);
    assert_eq!(env.find(a), Some(&3));
    assert_eq!(env.find(b), Some(&2));
    assert_eq!(env.find(Name::Gen(4)), None);
    assert!(!env.is_empty());
    let joined = Assoc::new().extend(b, 7u32).append(env);
    assert_eq!(joined.find(b), Some(&7));
    assert_eq!(joined.find(a), Some(&3));
}
