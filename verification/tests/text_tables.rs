use renderware::dat::GtaVcDat;
use renderware::dat::parse_gta_vc_dat;
use renderware::text::categorise_lines;
use renderware::text::split_line;

fn strs(v: &[String]) -> Vec<&str> {
    v.iter().map(|s| s.as_str()).collect()
}

#[test]
fn can_split_line_with_mix_of_commas_and_spaces() {
    let split = split_line("Id, ModelName, TxdName,    MeshCount\t\tDrawDistance, Flags");
    assert_eq!(
        strs(&split),
        vec!["Id", "ModelName", "TxdName", "MeshCount", "DrawDistance", "Flags"],
    );
}

#[test]
fn split_line_keeps_empty_fields_of_comma_tokens() {
    let split = split_line("a ,, b");
    assert_eq!(strs(&split), vec!["a", "", "b"]);
}

#[test]
fn can_categorise_some_lines() {
    const TEST_DATA: &str = "peds\n9, HFYST, HFYST, CIVFEMALE, STAT_STREET_GIRL, sexywoman, 013, null, 6,1\t\t\n83, CBa, CBa, GANG1, STAT_GANG1, gang1, 0, null, 6,6\nend\n\ncars\n130,\tlandstal, \tlandstal, \tcar, \tLANDSTAL, \tLANDSTK, \t\tnull,\tnormal, \t10,\t7,\t0,\t\t254, 0.8\nend\n";
    let sections = categorise_lines(TEST_DATA);
    assert_eq!(sections.len(), 2);
    assert_eq!(sections[0].0, "peds");
    assert_eq!(
        strs(&sections[0].1),
        vec![
            "9, HFYST, HFYST, CIVFEMALE, STAT_STREET_GIRL, sexywoman, 013, null, 6,1\t\t",
            "83, CBa, CBa, GANG1, STAT_GANG1, gang1, 0, null, 6,6",
        ],
    );
    assert_eq!(sections[1].0, "cars");
    assert_eq!(
        strs(&sections[1].1),
        vec!["130,\tlandstal, \tlandstal, \tcar, \tLANDSTAL, \tLANDSTK, \t\tnull,\tnormal, \t10,\t7,\t0,\t\t254, 0.8"],
    );
}

#[test]
fn reopening_a_section_empties_it() {
    let sections = categorise_lines("a\nx\nend\na\ny\nend\n");
    assert_eq!(sections.len(), 1);
    assert_eq!(sections[0].0, "a");
    assert_eq!(strs(&sections[0].1), vec!["y"]);
}

#[test]
fn can_parse_subset_of_gta_vc_dat() {
    const TEST_DATA: &str = "# Load IDEs first, then the models and after that the IPLs\n\nIDE DATA\\MAPS\\stadint\\stadint.IDE\nCOLFILE 0 MODELS\\COLL\\GENERIC.COL\nSPLASH loadsc3\nIPL DATA\\MAPS\\downtown\\downtown.IPL\nIPL DATA\\MAPS\\haitin\\haitin.IPL";
    let test_data = TEST_DATA.trim();
    assert_eq!(
        parse_gta_vc_dat(test_data),
        GtaVcDat {
            ides: vec![
                "data/default.ide".to_string(),
                "data/maps/stadint/stadint.ide".to_string(),
            ],
            ipls: vec![
                "data/maps/downtown/downtown.ipl".to_string(),
                "data/maps/haitiN/haitin.ipl".to_string(),
            ],
        }
    );
}

#[test]
fn dat_skips_unwanted_placement_file() {
    let out = parse_gta_vc_dat("IPL DATA\\MAPS\\islandsf\\islandsf.IPL\n");
    assert_eq!(out.ipls, Vec::<String>::new());
}
