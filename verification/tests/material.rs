use wdn::material::{TileKind, TileMaterial, TileMaterialFlags, TileMoveSpeed};

#[test]
fn material_constants() {
    assert_eq!(TileMaterial::EMPTY().kind(), TileKind::Empty);
    assert_eq!(TileMaterial::WALL().kind(), TileKind::Wall);
    assert_eq!(TileMaterial::DOOR().kind(), TileKind::Door);
    assert_eq!(TileMaterial::STAIR().kind(), TileKind::Stairs);
    assert_eq!(TileMaterial::SLOW().move_speed(), TileMoveSpeed::Slow);
    assert_eq!(TileMaterial::FAST().move_speed(), TileMoveSpeed::Fast);
    assert_eq!(TileMaterial::WALL().move_speed(), TileMoveSpeed::Medium);
    assert_eq!(TileMaterial::default(), TileMaterial::EMPTY());
}

#[test]
fn material_round_trips() {
    for kind in TileKind::values() {
        for speed in [TileMoveSpeed::Medium, TileMoveSpeed::Slow, TileMoveSpeed::Fast] {
            for id in [0u16, 1, 10, 511, 1023] {
                let material = TileMaterial::new(kind, id, speed);
                assert_eq!(material.kind(), kind);
                assert_eq!(material.id(), id);
                assert_eq!(material.move_speed(), speed);
            }
        }
    }
}

#[test]
fn material_constructors() {
    let wall = TileMaterial::wall(12);
    assert_eq!(wall.kind(), TileKind::Wall);
    assert_eq!(wall.id(), 12);
    assert_eq!(wall.flags().bits(), 0x4000 | 12);

    let door = TileMaterial::door(3, TileMoveSpeed::Slow);
    assert_eq!(door.flags().bits(), 0x8000 | 0x2000 | 3);

    let stairs = TileMaterial::stairs(1023, TileMoveSpeed::Fast);
    assert_eq!(stairs.flags().bits(), 0xc000 | 0x1000 | 1023);

    let empty = TileMaterial::empty(7, TileMoveSpeed::Medium);
    assert_eq!(empty.flags().bits(), 7);
    assert!(empty.kind().is_empty());
    assert!(!wall.kind().is_empty());
}

#[test]
fn material_setters() {
    let mut material = TileMaterial::stairs(5, TileMoveSpeed::Slow);
    material.set_id(900);
    assert_eq!(material.id(), 900);
    assert_eq!(material.kind(), TileKind::Stairs);
    assert_eq!(material.move_speed(), TileMoveSpeed::Slow);

    material.set_flags(
        TileMaterialFlags::from_bits_retain(TileMaterialFlags::STAIR_DIRECTION_MASK),
        TileMaterialFlags::from_bits_retain(TileMaterialFlags::STAIR_DIRECTION_WEST),
    );
    assert_eq!(
        material
            .flags()
            .intersection(TileMaterialFlags::from_bits_retain(
                TileMaterialFlags::STAIR_DIRECTION_MASK
            ))
            .bits(),
        TileMaterialFlags::STAIR_DIRECTION_WEST
    );
    assert_eq!(material.id(), 900);
    assert_eq!(material.kind(), TileKind::Stairs);

    let faster = material.with_move_speed(TileMoveSpeed::Fast);
    assert_eq!(faster.move_speed(), TileMoveSpeed::Fast);
    assert_eq!(faster.id(), 900);
}

#[test]
fn flag_operations() {
    let a = TileMaterialFlags::from_bits_retain(0b1100);
    let b = TileMaterialFlags::from_bits_retain(0b1010);
    assert_eq!(a.union(b).bits(), 0b1110);
    assert_eq!(a.intersection(b).bits(), 0b1000);
    assert_eq!(a.difference(b).bits(), 0b0100);
    assert!(a.contains(TileMaterialFlags::from_bits_retain(0b0100)));
    assert!(!a.contains(b));
}
