use podsite::utils::{get_date, get_excerpt, get_first_words, get_slug, get_unix_time};

#[test]
fn test_get_unix_time() {
    let date = "\"2022-12-10\"";
    println!("{}", date);
    let ut = get_unix_time(date).unwrap();
    println!("ut: {}", ut);
    assert_ne!(ut, 1);
}

#[test]
fn test_get_first_words() {
    let content = "En un lugar de la Mancha, de cuyo nombre no quiero acordarme, no ha mucho tiempo que vivía un hidalgo de los de lanza en astillero, adarga antigua, rocín flaco y galgo corredor. Una olla de algo más vaca que carnero, salpicón las más noches, duelos y quebrantos los sábados, lantejas los viernes, algún palomino de añadidura los domingos, consumían las tres partes de su hacienda. El resto della concluían sayo de velarte, calzas de velludo para las fiestas, con sus pantuflos de lo mesmo, y los días de entresemana se honraba con su vellorí de lo más fino. Tenía en su casa una ama que pasaba de los cuarenta, y una sobrina que no llegaba a los veinte, y un mozo de campo y plaza, que así ensillaba el rocín como tomaba la podadera. Frisaba la edad de nuestro hidalgo con los cincuenta años; era de complexión recia, seco de carnes, enjuto de rostro, gran madrugador y amigo de la caza. Quieren decir que tenía el sobrenombre de Quijada, o Quesada, que en esto hay alguna diferencia en los autores que deste caso escriben; aunque por conjeturas verosímiles se deja entender que se llamaba Quijana. Pero esto importa poco a nuestro cuento: basta que en la narración dél no se salga un punto de la verdad.";
    let fw = get_first_words(content, 55);
    println!("FW: {}", fw);
    assert_ne!(fw.len(), 55);
}

#[test]
fn unix_time_of_a_known_day() {
    assert_eq!(get_unix_time("2022-12-10"), Some(1670630400));
    assert_eq!(get_unix_time("1970-01-01"), Some(0));
    assert_eq!(get_unix_time("not a date"), None);
    assert_eq!(get_unix_time("1969-12-31"), None);
}

fn is_slug_shaped(s: &str) -> bool {
    if s.is_empty() {
        return true;
    }
    let ok_chars = s.chars().all(|c| c.is_ascii_lowercase() || c.is_ascii_digit() || c == '-');
    ok_chars && !s.starts_with('-') && !s.ends_with('-') && !s.contains("--")
}

#[test]
fn slug_examples() {
    assert_eq!(get_slug("Papá Friki"), "papa-friki");
    assert_eq!(get_slug("  Hello,  World!! "), "hello-world");
    assert_eq!(get_slug("¿Qué tal, Señor?"), "que-tal-senor");
    assert_eq!(get_slug("Episodio 42: Linux"), "episodio-42-linux");
    assert_eq!(get_slug("-"), "");
    assert_eq!(get_slug(""), "");
    assert_eq!(get_slug("ÁÉÍÓÚ ÜÑ"), "aeiou-un");
}

#[test]
fn slug_is_idempotent() {
    for x in ["Papá Friki", "  a--b  ", "¡¡Hola!!", "x", "Ωmega 3", "--", "ep42", "Real Title"] {
        let once = get_slug(x);
        assert_eq!(get_slug(&once), once);
    }
}

#[test]
fn slug_has_slug_shape() {
    for x in ["Papá Friki", "  a--b  ", "¡¡Hola!!", "x", "Ωmega 3", "--", "a - - b", "日本語"] {
        let s = get_slug(x);
        assert!(is_slug_shaped(&s), "{}", s);
    }
}

fn words(n: usize) -> String {
    (1..=n).map(|i| format!("w{}", i)).collect::<Vec<_>>().join(" ")
}

#[test]
fn excerpt_of_200_words_keeps_55() {
    let body = words(200);
    let e = get_first_words(&body, 55);
    assert_eq!(e, words(55));
    assert_eq!(get_excerpt(&body), words(55));
}

#[test]
fn excerpt_of_10_words_is_whole_text() {
    let body = words(10);
    assert_eq!(get_first_words(&body, 55), body);
}

#[test]
fn excerpt_collapses_runs_and_trims() {
    assert_eq!(get_first_words("  a   b\n\n\nc\t\td e", 3), "a b");
    assert_eq!(get_first_words("a   b\n\n\nc\t\td e", 3), "a b\nc");
    assert_eq!(get_first_words("a b c", 0), "");
    assert_eq!(get_first_words("", 5), "");
    assert_eq!(get_first_words("  one  ", 5), "one");
}

#[test]
fn day_of_a_modification_time() {
    assert_eq!(get_date("1670630400"), Some("2022-12-10".to_string()));
    assert_eq!(get_date("1670630400.75"), Some("2022-12-10".to_string()));
    assert_eq!(get_date("0"), Some("1970-01-01".to_string()));
    assert_eq!(get_date("soon"), None);
}
