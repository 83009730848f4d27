use lib::level_editor::sprite_layer::{EditableSprite, EditableSpriteLayer, RomSpriteFields};

#[test]
fn undo_snapshot_round_trips_vertical_sprite_coordinates() {
    let layer = EditableSpriteLayer {
        sprites: vec![
            EditableSprite { x: 31, y: 511, sprite_id: 0x35, extra_bits: 3 },
            EditableSprite { x: 0, y: 0, sprite_id: 0x01, extra_bits: 0 },
        ],
    };

    let restored = EditableSpriteLayer::from_bytes(layer.to_bytes());
    assert_eq!(restored.sprites, layer.sprites);
}

#[test]
fn undo_snapshot_size_is_ten_bytes_per_sprite() {
    let layer = EditableSpriteLayer {
        sprites: vec![EditableSprite { x: 1, y: 2, sprite_id: 3, extra_bits: 1 }; 3],
    };
    assert_eq!(layer.size_bytes(), 30);
    assert_eq!(layer.to_bytes().len(), 30);
}

#[test]
fn rom_sprite_records_become_absolute_positions() {
    let records = vec![
        RomSpriteFields { screen: 3, x_tile: 5, y_tile: 20, sprite_id: 0x0F, extra_bits: 2 },
        RomSpriteFields { screen: 0, x_tile: 0, y_tile: 0, sprite_id: 0x00, extra_bits: 0 },
    ];
    let h = EditableSpriteLayer::from_rom_sprite_layer(&records, false);
    assert_eq!(h.sprites[0], EditableSprite { x: 3 * 16 + 5, y: 20, sprite_id: 0x0F, extra_bits: 2 });
    assert_eq!(h.sprites[1], EditableSprite { x: 0, y: 0, sprite_id: 0, extra_bits: 0 });
    // Vertical levels: two screens per row of screens, 32 blocks high.
    let v = EditableSpriteLayer::from_rom_sprite_layer(&records, true);
    assert_eq!(v.sprites[0], EditableSprite { x: 16 + 5, y: 32 + 20, sprite_id: 0x0F, extra_bits: 2 });
    assert_eq!(v.sprites.len(), 2);
}

fn decode(r: &[u8], vertical: bool) -> (u32, u32, u8, u8) {
    let (b0, b1) = (r[0] as u32, r[1] as u32);
    let screen = ((b0 & 2) << 3) | (b1 & 0xF);
    let (lx, ly) = (b1 >> 4, ((b0 & 1) << 4) | (b0 >> 4));
    let (x, y) = if vertical { (screen % 2 * 16 + lx, screen / 2 * 32 + ly) } else { (screen * 16 + lx, ly) };
    (x, y, ((b0 >> 2) & 3) as u8, r[2])
}

#[test]
fn packed_records_decode_back_to_their_sprites() {
    let sprites = vec![
        EditableSprite { x: 511, y: 31, sprite_id: 0x2F, extra_bits: 7 },
        EditableSprite { x: 0, y: 17, sprite_id: 0x00, extra_bits: 1 },
        EditableSprite { x: 300, y: 3, sprite_id: 0xC8, extra_bits: 2 },
    ];
    let layer = EditableSpriteLayer { sprites: sprites.clone() };
    let bytes = layer.serialize_bytes(false).unwrap();
    for (i, s) in sprites.iter().enumerate() {
        assert_eq!(decode(&bytes[3 * i..3 * i + 3], false), (s.x, s.y, s.extra_bits & 3, s.sprite_id));
    }
    let vsprites = vec![EditableSprite { x: 31, y: 511, sprite_id: 5, extra_bits: 3 }];
    let vbytes = EditableSpriteLayer { sprites: vsprites }.serialize_bytes(true).unwrap();
    assert_eq!(decode(&vbytes[0..3], true), (31, 511, 3, 5));
}
