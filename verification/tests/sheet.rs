use wdn::sheet::{
    build_svg, center_label, center_top_label, east_label, east_top_label, escape_xml_attribute,
    has_parts, normalized_unique, resolve_layers, south_east_top_label, south_label, south_top_label,
    spritesheet_tiles, PartMap,
};
use wdn::sprite::{
    BaseSprite, BaseSpriteCenter, BaseSpriteEast, BaseSpriteSouth, TopSprite, TopSpriteCenter,
    TopSpriteEast, TopSpriteSouth, TopSpriteSouthEast,
};

fn base(center: BaseSpriteCenter, south: BaseSpriteSouth, east: BaseSpriteEast) -> BaseSprite {
    BaseSprite {
        center,
        south,
        east,
    }
}

#[test]
fn escaping() {
    assert_eq!(escape_xml_attribute("a&b\"c<d>e"), "a&amp;b&quot;c&lt;d&gt;e");
    assert_eq!(escape_xml_attribute("&amp;"), "&amp;amp;");
    assert_eq!(escape_xml_attribute(""), "");
    assert_eq!(escape_xml_attribute("WallCorner_SouthDoor"), "WallCorner_SouthDoor");
}

#[test]
fn unique_normalized_sprites() {
    let full = base(
        BaseSpriteCenter::StairNFull,
        BaseSpriteSouth::Blank,
        BaseSpriteEast::StairN,
    );
    let full_plain = base(
        BaseSpriteCenter::StairNFull,
        BaseSpriteSouth::Blank,
        BaseSpriteEast::Blank,
    );
    let corner = base(
        BaseSpriteCenter::WallCorner,
        BaseSpriteSouth::Blank,
        BaseSpriteEast::Blank,
    );
    let r = normalized_unique(&[corner, full, full_plain, corner]);
    assert_eq!(r, vec![corner, full_plain]);
    assert!(normalized_unique::<TopSprite>(&[]).is_empty());
}

#[test]
fn labels() {
    assert_eq!(center_label(BaseSpriteCenter::Blank), "CenterNone");
    assert_eq!(south_label(BaseSpriteSouth::Door), "SouthDoor");
    assert_eq!(east_label(BaseSpriteEast::StairS), "EastStairS");
    assert_eq!(center_top_label(TopSpriteCenter::Door), "CenterDoor");
    assert_eq!(south_top_label(TopSpriteSouth::WallCorner), "SouthCorner");
    assert_eq!(south_east_top_label(TopSpriteSouthEast::Blank), "SouthEastNone");
    assert_eq!(east_top_label(TopSpriteEast::StairS), "EastStairS");
}

#[test]
fn part_map() {
    let mut parts = PartMap::new();
    parts.insert("A".to_string(), "<a/>".to_string());
    parts.insert("B".to_string(), "<b/>".to_string());
    parts.insert("A".to_string(), "<a2/>".to_string());
    assert_eq!(parts.get("A").map(|s| s.as_str()), Some("<a2/>"));
    assert_eq!(parts.get("C"), None);
    assert!(has_parts(&["B", "A"], &parts));
    assert_eq!(
        resolve_layers(&["B", "A"], &parts),
        vec!["<b/>".to_string(), "<a2/>".to_string()]
    );
    assert!(!has_parts(&["B", "C"], &parts));
}

#[test]
fn svg_of_two_tiles() {
    let tiles = vec![
        ("A&B".to_string(), vec!["<p/>".to_string()]),
        ("C".to_string(), vec!["<q/>".to_string(), "<r/>".to_string()]),
    ];
    let svg = build_svg(&tiles);
    let expected = "<?xml version=\"1.0\" encoding=\"UTF-8\" standalone=\"no\"?>\n\
        <svg width=\"3200\" height=\"400\" viewBox=\"0 0 3200 400\" \
        xmlns=\"http://www.w3.org/2000/svg\" xmlns:inkscape=\"http://www.inkscape.org/namespaces/inkscape\" \
        xmlns:sodipodi=\"http://sodipodi.sourceforge.net/DTD/sodipodi-0.dtd\">\n\
        \x20 <g inkscape:label=\"C\" transform=\"translate(200,0)\">\n<q/>\n<r/>\n  </g>\n\
        \x20 <g inkscape:label=\"A&amp;B\" transform=\"translate(0,0)\">\n<p/>\n  </g>\n\
        </svg>\n";
    assert_eq!(svg, expected);
}

#[test]
fn svg_grid_positions() {
    let tiles: Vec<(String, Vec<String>)> = (0..17).map(|i| (format!("T{i}"), vec![])).collect();
    let svg = build_svg(&tiles);
    assert!(svg.contains("width=\"3200\" height=\"800\""));
    assert!(svg.contains("<g inkscape:label=\"T16\" transform=\"translate(0,400)\">"));
    assert!(svg.contains("<g inkscape:label=\"T15\" transform=\"translate(3000,0)\">"));
    assert!(svg.find("T16").unwrap() < svg.find("T0\"").unwrap());
    let empty = build_svg(&[]);
    assert!(empty.contains("width=\"3200\" height=\"0\""));
}

fn parts_for(labels: &[&str]) -> PartMap {
    let mut parts = PartMap::new();
    for label in labels {
        parts.insert(label.to_string(), format!("<{label}/>"));
    }
    parts
}

#[test]
fn sheet_tiles() {
    let base_parts = parts_for(&[
        "CenterNone",
        "CenterWallCorner",
        "SouthNone",
        "SouthDoor",
        "EastNone",
    ]);
    let top_parts = parts_for(&[
        "CenterNone",
        "CenterDoor",
        "SouthNone",
        "SouthEastNone",
        "EastNone",
    ]);
    let corner = base(
        BaseSpriteCenter::WallCorner,
        BaseSpriteSouth::Door,
        BaseSpriteEast::Blank,
    );
    let door_top = TopSprite {
        center: TopSpriteCenter::Door,
        ..TopSprite::EMPTY()
    };
    let (tiles, n) = spritesheet_tiles(
        &[BaseSprite::EMPTY(), corner, corner],
        &base_parts,
        &[TopSprite::EMPTY(), door_top],
        &top_parts,
    )
    .unwrap();
    assert_eq!(n, 2);
    assert_eq!(tiles.len(), 3);
    assert_eq!(tiles[0].0, "Empty");
    assert_eq!(tiles[0].1, vec!["<CenterNone/>", "<SouthNone/>", "<EastNone/>"]);
    assert_eq!(tiles[1].0, "WallCorner_SouthDoor");
    assert_eq!(tiles[2].0, "Door");
    assert_eq!(
        tiles[2].1,
        vec!["<CenterDoor/>", "<SouthNone/>", "<SouthEastNone/>", "<EastNone/>"]
    );

    let missing = spritesheet_tiles(
        &[base(BaseSpriteCenter::WallFull, BaseSpriteSouth::Blank, BaseSpriteEast::Blank)],
        &base_parts,
        &[],
        &top_parts,
    );
    assert!(missing.is_none());
}
