use renamer::output::Id as RecordId;
use renamer::output::write_to_csv as write_records;
use renamer::paths::NameError;
use renamer::writer::{
    csv_name, display_saved, sort_paths, split_ids, write_content, write_header, write_to_csv, Id,
};

fn strings(list: &[&str]) -> Vec<String> {
    list.iter().map(|t| String::from(*t)).collect()
}

#[test]
// A file name whose parts are not seven.
fn path_id_test() {
    let lines = "data/HDWND_AAGT_A1_L1_R2_01.fastq.gz";
    let mut id = Id::new(lines).unwrap();
    id.split_file_names();

    assert_eq!("N/A", id.file_id);
    assert_eq!("N/A", id.read_id);
}

#[test]
// A file name of seven parts.
fn path_modify_id_test() {
    let lines = "data/26535_HDWND_AAGT_A1_L1_R2_01.fastq.gz";
    let mut id = Id::new(lines).unwrap();
    id.split_file_names();

    assert_eq!("data/26535_HDWND_AAGT_A1_L1_R2_01.fastq.gz", id.full_path);
    assert_eq!("FILL HERE!", id.new_names);
    assert_eq!("26535_HDWND_AAGT_A1_L1_R2_01.fastq.gz", id.fname);
    assert_eq!("26535_HDWND_AAGT", id.file_id);
    assert_eq!("A1_L1_R2_01.fastq.gz", id.read_id);
}

#[test]
fn id_of_path_without_file_name() {
    assert!(Id::new("..").is_none());
    assert!(Id::new("").is_none());
    assert!(Id::new("/").is_none());
    let id = Id::new("a/b/").unwrap();
    assert_eq!("a/b/", id.full_path);
    assert_eq!("b", id.fname);
    assert_eq!("N/A", id.file_id);
    assert_eq!("N/A", id.read_id);
}

#[test]
fn ids_need_seven_parts() {
    assert_eq!(Some((String::from("a_b_c"), String::from("d_e_f_g"))), split_ids("a_b_c_d_e_f_g"));
    assert_eq!(Some((String::from("__"), String::from("___"))), split_ids("______"));
    assert_eq!(Some((String::from("_b_"), String::from("d__f_"))), split_ids("_b__d__f_"));
    assert_eq!(None, split_ids("a_b_c_d_e_f"));
    assert_eq!(None, split_ids("a_b_c_d_e_f_g_h"));
    assert_eq!(None, split_ids(""));
    assert_eq!(None, split_ids("plain.txt"));
}

#[test]
fn header() {
    assert_eq!("full_path,new_names,filenames", write_header(false));
    assert_eq!("full_path,new_names,filenames,id,read_id", write_header(true));
}

#[test]
fn content() {
    let mut id = Id::new("data/26535_HDWND_AAGT_A1_L1_R2_01.fastq.gz").unwrap();
    assert_eq!(
        "data/26535_HDWND_AAGT_A1_L1_R2_01.fastq.gz,FILL HERE!,26535_HDWND_AAGT_A1_L1_R2_01.fastq.gz",
        write_content(&mut id, false)
    );
    assert_eq!("N/A", id.file_id);
    assert_eq!(
        "data/26535_HDWND_AAGT_A1_L1_R2_01.fastq.gz,FILL HERE!,26535_HDWND_AAGT_A1_L1_R2_01.fastq.gz,26535_HDWND_AAGT,A1_L1_R2_01.fastq.gz",
        write_content(&mut id, true)
    );
    assert_eq!("26535_HDWND_AAGT", id.file_id);
    let mut plain = Id::new("x/y.fq.gz").unwrap();
    assert_eq!("x/y.fq.gz,FILL HERE!,y.fq.gz,N/A,N/A", write_content(&mut plain, true));
}

#[test]
fn paths_are_sorted_by_component() {
    let mut recs = strings(&["a-b", "b", "a/b", "a", "a/a/z", "a/b"]);
    sort_paths(&mut recs);
    assert_eq!(strings(&["a", "a/a/z", "a/b", "a/b", "a-b", "b"]), recs);
    let mut none: Vec<String> = Vec::new();
    sort_paths(&mut none);
    assert!(none.is_empty());
}

#[test]
fn equal_paths_keep_their_order() {
    let mut recs = strings(&["b", "a//b", "a/b", "a/./b"]);
    sort_paths(&mut recs);
    assert_eq!(strings(&["a//b", "a/b", "a/./b", "b"]), recs);
    let mut recs = strings(&["a/./b", "a/b", "a//b"]);
    sort_paths(&mut recs);
    assert_eq!(strings(&["a/./b", "a/b", "a//b"]), recs);
}

#[test]
fn table_of_found_files() {
    let mut recs = strings(&["d/z.fq.gz", "d/1_2_3_4_5_6_7.fq.gz"]);
    let table = write_to_csv(&mut recs, true);
    assert_eq!(strings(&["d/1_2_3_4_5_6_7.fq.gz", "d/z.fq.gz"]), recs);
    assert_eq!(
        Ok(strings(&[
            "full_path,new_names,filenames,id,read_id",
            "d/1_2_3_4_5_6_7.fq.gz,FILL HERE!,1_2_3_4_5_6_7.fq.gz,1_2_3,4_5_6_7.fq.gz",
            "d/z.fq.gz,FILL HERE!,z.fq.gz,N/A,N/A",
        ])),
        table
    );
    let mut none: Vec<String> = Vec::new();
    assert_eq!(Ok(strings(&["full_path,new_names,filenames"])), write_to_csv(&mut none, false));
    let mut bad = strings(&["z", "/"]);
    assert_eq!(Err(NameError::NoFileName), write_to_csv(&mut bad, false));
    assert_eq!(strings(&["/", "z"]), bad);
}

#[test]
fn table_name() {
    assert_eq!("renamer-finder.csv", csv_name());
    assert_eq!("The result is saved as renamer-finder.csv", display_saved());
}

#[test]
fn record_ids() {
    let id = RecordId::new();
    assert_eq!("N/A", id.file_id);
    assert_eq!("N/A", id.read_id);
    let id = RecordId::split_file_names(&String::from("26535_HDWND_AAGT_A1_L1_R2_01.fastq.gz"));
    assert_eq!("26535_HDWND_AAGT", id.file_id);
    assert_eq!("A1_L1_R2_01.fastq.gz", id.read_id);
    let id = RecordId::split_file_names(&String::from("HDWND_AAGT_A1_L1_R2_01.fastq.gz"));
    assert_eq!("N/A", id.file_id);
    assert_eq!("N/A", id.read_id);
}

#[test]
fn table_of_records() {
    let mut recs = strings(&["d/z.fq.gz", "d/1_2_3_4_5_6_7.fq.gz"]);
    let records = write_records(&mut recs, "out").unwrap();
    assert_eq!("out/fastq_records.csv", records.name);
    assert_eq!("Done! The result is saved as out/fastq_records.csv", records.done);
    assert_eq!(
        strings(&[
            "full_path,filenames,id,read_id",
            "d/1_2_3_4_5_6_7.fq.gz,1_2_3_4_5_6_7.fq.gz,1_2_3,4_5_6_7.fq.gz",
            "d/z.fq.gz,z.fq.gz,N/A,N/A",
        ]),
        records.lines
    );
    let mut bad = strings(&["z", ".."]);
    assert_eq!(Some(NameError::NoFileName), write_records(&mut bad, "out").err());
}
