use groupic::cdn::{
    get_default_user_avatar, get_guild_member_avatar, get_user_avatar, u64_to_decimal, PJWG,
};

#[test]
fn format_extensions() {
    assert_eq!(PJWG::PNG.as_ref(), "png");
    assert_eq!(PJWG::JPEG.as_ref(), "jpeg");
    assert_eq!(PJWG::WebP.as_ref(), "webp");
    assert_eq!(PJWG::GIF.as_ref(), "gif");
}

#[test]
fn decimal_rendering() {
    assert_eq!(u64_to_decimal(0), "0");
    assert_eq!(u64_to_decimal(7), "7");
    assert_eq!(u64_to_decimal(10), "10");
    assert_eq!(u64_to_decimal(120), "120");
    assert_eq!(u64_to_decimal(1000000007), "1000000007");
    assert_eq!(u64_to_decimal(u64::MAX), "18446744073709551615");
}

#[test]
fn default_avatar_uses_discriminator_modulo_five() {
    assert_eq!(
        get_default_user_avatar(0),
        "https://cdn.discordapp.com/embed/avatars/0.png"
    );
    assert_eq!(
        get_default_user_avatar(3),
        "https://cdn.discordapp.com/embed/avatars/3.png"
    );
    assert_eq!(
        get_default_user_avatar(7),
        "https://cdn.discordapp.com/embed/avatars/2.png"
    );
    assert_eq!(
        get_default_user_avatar(9999),
        "https://cdn.discordapp.com/embed/avatars/4.png"
    );
}

#[test]
fn user_avatar_url() {
    assert_eq!(
        get_user_avatar(80351110224678912, "8342729096ea3675442027381ff50dfe", PJWG::PNG),
        "https://cdn.discordapp.com/avatars/80351110224678912/8342729096ea3675442027381ff50dfe.png"
    );
    assert_eq!(
        get_user_avatar(1, "h", PJWG::GIF),
        "https://cdn.discordapp.com/avatars/1/h.gif"
    );
}

#[test]
fn guild_member_avatar_url() {
    assert_eq!(
        get_guild_member_avatar(41771983423143937, 80351110224678912, "abc123", PJWG::WebP),
        "https://cdn.discordapp.com/guilds/41771983423143937/users/80351110224678912/avatars/abc123.webp"
    );
}
