use wdn::catalog::{catalog, sprite_consts, NEIGHBOURHOODS, TABLE_HEADER};
use wdn::sprite::{
    resolve_sprites, BaseSprite, BaseSpriteCenter, BaseSpriteEast, BaseSpriteSouth, TileVariant,
    TopSprite,
};

#[test]
fn catalog_tables_list_every_neighbourhood() {
    let c = catalog();
    let base_lines: Vec<&str> = c.base_table.lines().collect();
    let top_lines: Vec<&str> = c.top_table.lines().collect();
    assert_eq!(base_lines.len(), NEIGHBOURHOODS + 1);
    assert_eq!(top_lines.len(), NEIGHBOURHOODS + 1);
    assert_eq!(base_lines[0], TABLE_HEADER);
    assert_eq!(top_lines[0], TABLE_HEADER);
    assert_eq!(base_lines[1], "EMPTY,Empty,Empty,Empty,Empty");
    assert_eq!(top_lines[1], "EMPTY,Empty,Empty,Empty,Empty");
    assert!(base_lines[NEIGHBOURHOODS].ends_with(",StairW,StairW,StairW,StairW"));
    assert!(c.base_table.ends_with('\n'));
}

#[test]
fn catalog_sprites_are_distinct_and_first_seen_first() {
    let c = catalog();
    assert_eq!(c.base_sprites[0], BaseSprite::EMPTY());
    assert_eq!(c.top_sprites[0], TopSprite::EMPTY());
    for (i, a) in c.base_sprites.iter().enumerate() {
        for b in &c.base_sprites[i + 1..] {
            assert_ne!(a, b);
        }
    }
    for (i, a) in c.top_sprites.iter().enumerate() {
        for b in &c.top_sprites[i + 1..] {
            assert_ne!(a, b);
        }
    }
    // Every resolved sprite is listed.
    let values = TileVariant::values();
    for center in values {
        for east in values {
            for south_east in values {
                for south in values {
                    let (base, top) = resolve_sprites(
                        center,
                        TileVariant::Empty,
                        TileVariant::Empty,
                        east,
                        south_east,
                        south,
                    );
                    assert!(c.base_sprites.contains(&base));
                    assert!(c.top_sprites.contains(&top));
                }
            }
        }
    }
}

#[test]
fn catalog_rows_name_constants() {
    let c = catalog();
    let (base, top) = resolve_sprites(
        TileVariant::Wall,
        TileVariant::Empty,
        TileVariant::Empty,
        TileVariant::Door,
        TileVariant::Wall,
        TileVariant::StairN,
    );
    let row = c
        .base_table
        .lines()
        .find(|l| l.ends_with(",Wall,Door,Wall,StairN"))
        .unwrap();
    let expected = if base == BaseSprite::EMPTY() {
        "EMPTY".to_owned()
    } else {
        format!("BASE_{}", base.name()).to_uppercase()
    };
    assert_eq!(row, format!("{expected},Wall,Door,Wall,StairN"));
    let row = c
        .top_table
        .lines()
        .find(|l| l.ends_with(",Wall,Door,Wall,StairN"))
        .unwrap();
    let expected = if top == TopSprite::EMPTY() {
        "EMPTY".to_owned()
    } else {
        format!("TOP_{}", top.name()).to_uppercase()
    };
    assert_eq!(row, format!("{expected},Wall,Door,Wall,StairN"));
}

#[test]
fn consts_number_sprites() {
    let base = [
        BaseSprite::EMPTY(),
        BaseSprite {
            center: BaseSpriteCenter::WallFull,
            south: BaseSpriteSouth::Blank,
            east: BaseSpriteEast::Door,
        },
    ];
    let top = [TopSprite::EMPTY()];
    assert_eq!(
        sprite_consts(&base, &top),
        "const EMPTY: u16 = 0;\nconst BASE_WALLFULL_EASTDOOR: u16 = 1;\n"
    );
    let c = catalog();
    let text = sprite_consts(&c.base_sprites, &c.top_sprites);
    assert!(text.starts_with("const EMPTY: u16 = 0;\n"));
    let expected = c.base_sprites.len() - 1 + c.top_sprites.len() - 1 + 1;
    assert_eq!(text.lines().count(), expected);
    let last = format!(": u16 = {};", c.base_sprites.len() + c.top_sprites.len() - 2);
    assert!(text.lines().last().unwrap().ends_with(&last));
}
