use bon_scanner::ocr::{
    classify, cut_stray, is_well_shaped, mark, refilter, OcrEntry, OcrType,
};
use regex::Regex;

const RECEIPT: &str = "REWE Markt GmbH\n  Milch 2,49  \nBrot 3,10 A\nPfand 0,25\n\nx\nSUMME 5,59\n24.12.2024 Kassenbon\nDanke fuer Ihren Einkauf\nTel. 0123-456\nUhrzeit: 12:45\n 7 \nKaese 4,99  B\nButter 1.99 *\nEC-Karte 5,59";

fn names(entries: &[OcrEntry]) -> Vec<String> {
    entries.iter().map(|e| e.name.clone()).collect()
}

/// The selection written with patterns and the string functions of the
/// standard library.
fn pattern_lines(text: &str, blacklist: &[String]) -> Vec<String> {
    let stray = Regex::new(r" \w$").unwrap();
    let digit = Regex::new(r"\d").unwrap();
    let delimiter = Regex::new(r"[,.:-]").unwrap();
    text.split('\n')
        .map(|line| line.trim().to_string())
        .filter(|line| line.chars().count() > 1)
        .map(|line| match stray.find(&line) {
            Some(found) => line[..found.start()].to_string(),
            None => line,
        })
        .filter(|line| digit.is_match(line.split(' ').last().unwrap_or("")))
        .filter(|line| delimiter.is_match(line))
        .filter(|line| !blacklist.iter().any(|entry| line.contains(entry.as_str())))
        .collect()
}

#[test]
fn a_receipt_is_sorted_into_the_lines_worth_keeping() {
    let found = classify(RECEIPT, &vec![]);
    assert_eq!(
        names(&found),
        vec![
            "Milch 2,49",
            "Brot 3,10",
            "Pfand 0,25",
            "SUMME 5,59",
            "Tel. 0123-456",
            "Uhrzeit: 12:45",
            "EC-Karte 5,59",
        ]
    );
    assert!(found.iter().all(|e| e.ocr_type == OcrType::Entry));
}

#[test]
fn blacklisted_lines_are_left_out() {
    let blacklist = vec!["Pfand".to_string(), "Tel.".to_string()];
    let found = classify(RECEIPT, &blacklist);
    assert_eq!(
        names(&found),
        vec!["Milch 2,49", "Brot 3,10", "SUMME 5,59", "Uhrzeit: 12:45", "EC-Karte 5,59"]
    );
    let lower = vec!["pfand".to_string()];
    assert!(names(&classify(RECEIPT, &lower)).contains(&"Pfand 0,25".to_string()));
}

#[test]
fn every_line_kept_has_the_shape_of_a_line_worth_keeping() {
    let blacklist = vec!["Karte".to_string()];
    for entry in classify(RECEIPT, &blacklist) {
        let line = entry.name;
        assert!(line.contains(|c| ",.:-".contains(c)), "{:?}", line);
        let last = line.rsplit(' ').next().unwrap();
        assert!(last.contains(|c: char| c.is_ascii_digit()), "{:?}", line);
        assert!(!line.contains("Karte"), "{:?}", line);
    }
}

#[test]
fn nothing_worth_keeping_gives_no_lines() {
    assert_eq!(classify("", &vec![]), vec![]);
    assert_eq!(classify("\n\n\n", &vec![]), vec![]);
    assert_eq!(classify("Danke\nBis bald", &vec![]), vec![]);
    assert_eq!(classify("1", &vec![]), vec![]);
    assert_eq!(classify("1", &vec![]), vec![]);
    assert_eq!(classify(",", &vec![]), vec![]);
    assert_eq!(names(&classify("1,", &vec![])), vec!["1,"]);
    assert_eq!(classify("Milch 2,49", &vec!["".to_string()]), vec![]);
}

#[test]
fn a_stray_last_character_is_taken_off() {
    assert_eq!(names(&classify("Brot 3,10 A", &vec![])), vec!["Brot 3,10"]);
    assert_eq!(names(&classify("Brot 3,10 1", &vec![])), vec!["Brot 3,10"]);
    assert_eq!(names(&classify("Brot 3,10 _", &vec![])), vec!["Brot 3,10"]);
    assert_eq!(names(&classify("Brot 3,10 ü", &vec![])), vec!["Brot 3,10"]);
    assert_eq!(names(&classify("Brot 3,10 ٣", &vec![])), vec!["Brot 3,10"]);
    assert_eq!(names(&classify("Brot 3,10 ²", &vec![])), Vec::<String>::new());
    assert_eq!(names(&classify("Tee ٣,٥", &vec![])), vec!["Tee ٣,٥"]);
    assert_eq!(names(&classify("Brot 3,10 *", &vec![])), Vec::<String>::new());
    assert_eq!(names(&classify("Brot 3,10  A", &vec![])), Vec::<String>::new());
    assert_eq!(names(&classify("Brot 3,10 AB", &vec![])), Vec::<String>::new());
    assert_eq!(names(&classify("Brot 3,1", &vec![])), vec!["Brot 3,1"]);
    assert_eq!(names(&classify("2,5 7", &vec![])), vec!["2,5"]);
    assert_eq!(names(&classify(". 7", &vec![])), Vec::<String>::new());
}

#[test]
fn the_selection_agrees_with_the_patterns() {
    let texts = [
        RECEIPT,
        "",
        "a",
        "1,0\n2.0\n3:0\n4-0\n5;0",
        "Milch 2,49\r\nBrot 3,10\r\n",
        "  A 1,5 B  \n\tC 2,5\t\nD 3,5 \n E\n",
        "Obst, Gemuese 12\nObst 12\nObst: 1 2\n- 5 -\n-5 x\n",
        "Rabatt -0,50\nRabatt 0,50-\n1.2.3 4\n",
        "Käse 1,99 é\nTee ٣,٥\nBrot 3,10 ٣\nMilch 2,49 ²\nÖl: ٧\nSaft 1,5 \u{301}\n",
    ];
    let blacklists: [Vec<String>; 3] = [
        vec![],
        vec!["Brot".to_string()],
        vec!["Obst".to_string(), "Rabatt".to_string(), ",49".to_string()],
    ];
    for text in texts {
        for blacklist in &blacklists {
            assert_eq!(
                names(&classify(text, blacklist)),
                pattern_lines(text, blacklist),
                "{:?} with {:?}",
                text,
                blacklist
            );
        }
    }
}

#[test]
fn filtering_again_keeps_the_tags() {
    let lines = vec![
        OcrEntry::new("Milch 2,49", OcrType::Entry),
        OcrEntry::new("Pfand 0,25", OcrType::Entry),
        OcrEntry::new("SUMME 5,59", OcrType::Sum),
        OcrEntry::new("24.12.2024 Kassenbon", OcrType::Date),
    ];
    let kept = refilter(&lines, &vec!["Pfand".to_string()]);
    assert_eq!(
        kept,
        vec![
            OcrEntry::new("Milch 2,49", OcrType::Entry),
            OcrEntry::new("SUMME 5,59", OcrType::Sum),
            OcrEntry::new("24.12.2024 Kassenbon", OcrType::Date),
        ]
    );
    assert_eq!(refilter(&lines, &vec![]), lines);
    assert_eq!(refilter(&lines, &vec!["".to_string()]), vec![]);
    assert_eq!(
        refilter(&lines, &vec!["SUMME".to_string(), "2024".to_string()]),
        vec![
            OcrEntry::new("Milch 2,49", OcrType::Entry),
            OcrEntry::new("Pfand 0,25", OcrType::Entry),
        ]
    );
}

fn tags(entries: &[OcrEntry]) -> Vec<OcrType> {
    entries.iter().map(|e| e.ocr_type).collect()
}

#[test]
fn marking_a_second_line_moves_the_mark() {
    let mut lines = vec![
        OcrEntry::new("23.12.2024 x", OcrType::Date),
        OcrEntry::new("24.12.2024 Kassenbon", OcrType::Entry),
        OcrEntry::new("SUMME 5,59", OcrType::Sum),
    ];
    mark(&mut lines, 1, OcrType::Date);
    assert_eq!(tags(&lines), vec![OcrType::Entry, OcrType::Date, OcrType::Sum]);
    assert_eq!(names(&lines), vec!["23.12.2024 x", "24.12.2024 Kassenbon", "SUMME 5,59"]);
    mark(&mut lines, 1, OcrType::Date);
    assert_eq!(tags(&lines), vec![OcrType::Entry, OcrType::Entry, OcrType::Sum]);
    mark(&mut lines, 2, OcrType::Date);
    assert_eq!(tags(&lines), vec![OcrType::Entry, OcrType::Entry, OcrType::Sum]);
    mark(&mut lines, 0, OcrType::Sum);
    assert_eq!(tags(&lines), vec![OcrType::Sum, OcrType::Entry, OcrType::Entry]);
    mark(&mut lines, 3, OcrType::Sum);
    assert_eq!(tags(&lines), vec![OcrType::Sum, OcrType::Entry, OcrType::Entry]);
    mark(&mut lines, 1, OcrType::Entry);
    assert_eq!(tags(&lines), vec![OcrType::Sum, OcrType::Entry, OcrType::Entry]);
}

#[test]
fn a_line_is_cut_before_a_stray_word_character() {
    let v: Vec<char> = "x Brot 3,10 A\ny".chars().collect();
    assert_eq!(cut_stray(&v, 2, 13, true), 11);
    assert_eq!(cut_stray(&v, 2, 13, false), 13);
    assert_eq!(cut_stray(&v, 2, 11, true), 11);
    assert_eq!(cut_stray(&v, 2, 8, true), 6);
    assert_eq!(cut_stray(&v, 0, 2, true), 2);
    assert_eq!(cut_stray(&v, 1, 3, true), 1);
}

#[test]
fn the_shape_of_a_line_worth_keeping() {
    let shaped = |s: &str| is_well_shaped(&s.chars().collect::<Vec<char>>());
    assert!(shaped("Milch 2,49"));
    assert!(shaped("Tel. 0123-456"));
    assert!(shaped("1,"));
    assert!(!shaped("24.12.2024 Kassenbon"));
    assert!(!shaped("Milch 249"));
    assert!(!shaped("2,49 Milch"));
    assert!(!shaped("Milch 2,49 "));
    assert!(!shaped(""));
}
