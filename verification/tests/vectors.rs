use voxelize::client::{Client, MessageRecipient};
use voxelize::vec::{Vec2, Vec3};

#[test]
fn vec3_add_sub() {
    let a = Vec3(1, 2, 3);
    let b = Vec3(10, 20, 30);
    assert_eq!(a.add(&b), Vec3(11, 22, 33));
    assert_eq!(b.sub(&a), Vec3(9, 18, 27));
}

#[test]
fn vec3_scale_and_add() {
    let a = Vec3(1, 2, 3);
    let b = Vec3(2, 3, 4);
    assert_eq!(a.scale(5), Vec3(5, 10, 15));
    assert_eq!(a.scale_and_add(&b, 10), Vec3(21, 32, 43));
}

#[test]
fn vec3_copy_set_at() {
    let mut a = Vec3(0, 0, 0);
    a.set(7, 8, 9);
    assert_eq!(a, Vec3(7, 8, 9));
    let mut b = Vec3(1, 1, 1);
    b.copy(&a);
    assert_eq!(b, Vec3(7, 8, 9));
    assert_eq!(b.at(0), 7);
    assert_eq!(b.at(1), 8);
    assert_eq!(b.at(2), 9);
}

#[test]
fn vec3_from_arr_and_vec() {
    assert_eq!(Vec3::from_arr([4, 5, 6]), Vec3(4, 5, 6));
    let v: Vec<i32> = vec![9, 8, 7, 6];
    assert_eq!(Vec3::from_vec(&v), Vec3(9, 8, 7));
}

#[test]
fn vec2_equality_and_hash_key() {
    let a = Vec2(3, -4);
    let b = Vec2(3, -4);
    let c = Vec2(-4, 3);
    assert_eq!(a, b);
    assert_ne!(a, c);
}

#[test]
fn client_new_starts_outside_any_world() {
    let c = Client::new(String::from("alice"), MessageRecipient { handle: 42 });
    assert_eq!(c.id, "alice");
    assert_eq!(c.recipient.handle, 42);
    assert!(c.world.is_none());
}
