use ektoboat::video::{avi_name, find_cover_vec, sort_strings, temp_video_file};

fn find_cover_of(names: &[&str]) -> String {
    find_cover_vec(names.iter().map(|x| x.to_string()).collect()).unwrap()
}

#[test]
fn find_cover() {
    let testcases = [
        ("cover.jpg", vec!["00 - hi.mp3", "cover.pdf", "cover.jpg"]),
        (
            "00 - Inner Fhorse Chapter II - Image1.jpg",
            vec![
                "00 - Inner Fhorse Chapter II - Image2.jpg",
                "01 - Medicinmannen - Not Another Intro Track.mp3",
                "02 - Dfectv - I Can't Relax.mp3",
                "03 - Bodhi - Time Particle Diversion.mp3",
                "04 - Feargasm - Knas Wunderlich.mp3",
                "05 - Holix - Hypnotic Story.mp3",
                "06 - Iguana vs NiceJub - Astrobleme.mp3",
                "07 - Steganografic - Fingerprints Of The Higgs.mp3",
                "00 - Inner Fhorse Chapter II - Image1.jpg",
                "08 - Peyoceps - Randomness Of Speech.mp3",
                "09 - Dar Kapo - Rejekshun.mp3",
                "ektobot.json",
                "folder.jpg",
            ],
        ),
        (
            "00 - Grower - Image 1 (Front).jpg",
            vec![
                "09 - Xylonite - Thermal Expansion.mp3",
                "08 - ShizoLizer Gin - Sweet Dino.mp3",
                "07 - Irukanji - Muti Cappa.mp3",
                "06 - E.R.S. - I Went Irie (The Orient Funk Experience).mp3",
                "05 - Overdream - Mystique Cabalistique.mp3",
                "04 - Vonoom - Dirty Dishwater.mp3",
                "03 - Mahaon - Leaving The Limit (feat. Locus).mp3",
                "02 - Spectrum Vision - Outsiders.mp3",
                "01 - Atati - Versions.mp3",
                "00 - Grower - Image 6 (Back).jpg",
                "00 - Grower - Image 5 (CD).jpg",
                "00 - Grower - Image 4 (Inside 2).jpg",
                "00 - Grower - Image 3 (Inside 1).jpg",
                "00 - Grower - Image 2 (Full Cover).jpg",
                "00 - Grower - Image 1 (Front).jpg",
            ],
        ),
        (
            "00 - Escape Into - The Drama.jpg",
            vec![
                "03 - Escape Into - H.N.I.mp3",
                "04 - Escape Into - The Ziggurat Of Wondrous Wonder.mp3",
                "00 - Escape Into - The Drama.jpg",
                "folder.jpg",
                "01 - Escape Into - The Professor.mp3",
                "02 - Escape Into - Come With Me.mp3",
                "05 - Escape Into - Outro.mp3",
            ],
        ),
        (
            "[DigitalDiamonds008L]_V.A._Compilation_-_Digital_Family.jpg",
            vec![
                "[DigitalDiamonds008L]_06_Fuzzion_-_Solar_Alic_Remix.mp3",
                "[DigitalDiamonds008L]_Coverset.pdf",
                "Digital Diamonds - Advanced Audio Netlabel.URL",
                "Creative Commons Attribution-Noncommercial-No Derivative Works 2.0 Germany.URL",
                "[DigitalDiamonds008L]_04_FM_Radio_Gods_-_Atom_Bells_October_Rust_Remix.mp3",
                "[DigitalDiamonds008L]_09_Digital_IO_-_Carbon_Classic.mp3",
                "[DigitalDiamonds008L]_08_Thompson_&_Kuhl_-_Heisse_Luft.mp3",
                "[DigitalDiamonds008L]_07_Dan_Rotor_-_Gemuesemann.mp3",
                "[DigitalDiamonds008L]_02_Viker_Turrit_-_Interferon.mp3",
                "[DigitalDiamonds008L]_V.A._Compilation_-_Digital_Family.jpg",
                "[DigitalDiamonds008L]_05_BitShift_-_Specialist.mp3",
                "[DigitalDiamonds008L]_V.A._Compilation_-_Digital_Family.txt",
                "Ektoplazm - Free Music Portal.URL",
                "[DigitalDiamonds008L]_01_Dan_Rotor_-_Abducted.mp3",
                "[DigitalDiamonds008L]_03_Kalumet_-_Blaxun.mp3",
            ],
        ),
        (
            "00 - Trollsås - Image 1.png",
            vec![
                "01 - Spuge H - SpugeStep.mp3",
                "00 - Trollsås - Image 2.png",
                "05 - Salakavala - Pigfoot.mp3",
                "08 - Anima Animus - Thank You Dr. Hofmann.mp3",
                "07 - Trance-Ingvars - Maxad Finne.mp3",
                "04 - Bugswap - Stygian.mp3",
                "09 - Speedhawk vs Riktronik - Stranger Danger.mp3",
                "03 - Oliveira - Mystik.mp3",
                "00 - Trollsås - Info.txt",
                "folder.jpg",
                "06 - Scum Unit - Electricity, Vibrations & Frequencies.mp3",
                "00 - Trollsås - Image 1.png",
                "02 - Nebula Meltdown - Mindgroove.mp3",
            ],
        ),
    ];

    for tc in &testcases {
        assert_eq!(tc.0.to_string(), find_cover_of(&tc.1));
    }
}

#[test]
fn find_cover_none() {
    let err = find_cover_vec(vec!["01 - a.mp3".to_string(), "notes.txt".to_string()]).unwrap_err();
    assert_eq!(err.message(), "No cover image found");
}

#[test]
fn temp_video() {
    assert_eq!(
        temp_video_file("/var/lib/ektoboat whatevs/videos/01 - foo - bar.avi").unwrap(),
        "/var/lib/ektoboat whatevs/videos/TEMP 01 - foo - bar.avi".to_string()
    );
}

#[test]
fn temp_video_bad_name() {
    assert!(temp_video_file("").is_err());
    assert!(temp_video_file("/").is_err());
    assert!(temp_video_file("a/..").is_err());
    // Trailing slashes are ignored, as a path's file name ignores them.
    assert_eq!(temp_video_file("videos/").unwrap(), "TEMP videos");
    assert_eq!(temp_video_file("/var/lib/videos/").unwrap(), "/var/lib/TEMP videos");
    assert_eq!(temp_video_file("song.avi").unwrap(), "TEMP song.avi");
}

#[test]
fn avi_extension() {
    assert_eq!(avi_name("01 - foo.mp3"), "01 - foo.avi");
    assert_eq!(avi_name("noext"), "noext.avi");
    assert_eq!(avi_name("a.b.c"), "a.b.avi");
    assert_eq!(avi_name(".hidden"), ".hidden.avi");
}

#[test]
fn sorting_is_lexicographic() {
    let sorted = sort_strings(&vec![
        "b".to_string(),
        "a10".to_string(),
        "a2".to_string(),
        "A".to_string(),
    ]);
    assert_eq!(
        sorted,
        vec![
            "A".to_string(),
            "a10".to_string(),
            "a2".to_string(),
            "b".to_string(),
        ]
    );
}
