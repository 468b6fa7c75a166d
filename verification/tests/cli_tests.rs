use qutility::calculation::DftResult;
use qutility::cli::{
    get_predefined_wavelength, guess_format_from_extension, parse_range, DftCodeType, RangeError,
    XrdOutputFormat,
};
use qutility::slurm::{generate_sbatch_script, upsert_external_pressure_block, SlurmConfig};
use qutility::text::u64_to_string;

#[test]
fn test_parse_range_ok() {
    assert_eq!(parse_range("1-10"), Ok((1, 10)));
    assert_eq!(parse_range("7-7"), Ok((7, 7)));
    // The machine's unsigned parser accepts one leading plus sign.
    assert_eq!(parse_range("3-+10"), Ok((3, 10)));
    assert_eq!(parse_range("+1-10"), Ok((1, 10)));
}

#[test]
fn test_parse_range_errors() {
    assert_eq!(parse_range("5"), Err(RangeError::Malformed));
    assert_eq!(parse_range("1-2-3"), Err(RangeError::Malformed));
    assert_eq!(parse_range("a-b"), Err(RangeError::Malformed));
    assert_eq!(parse_range("++3-10"), Err(RangeError::Malformed));
    assert_eq!(parse_range("+-10"), Err(RangeError::Malformed));
    assert_eq!(parse_range("-5"), Err(RangeError::Malformed));
    assert_eq!(parse_range("3-2"), Err(RangeError::OutOfOrder));
    assert_eq!(parse_range("0-5"), Err(RangeError::OutOfOrder));
}

#[test]
fn test_guess_format_from_extension() {
    assert_eq!(guess_format_from_extension("svg"), XrdOutputFormat::Svg);
    assert_eq!(guess_format_from_extension("CSV"), XrdOutputFormat::Csv);
    assert_eq!(guess_format_from_extension("xy"), XrdOutputFormat::Xy);
    assert_eq!(guess_format_from_extension("dat"), XrdOutputFormat::Xy);
    assert_eq!(guess_format_from_extension("txt"), XrdOutputFormat::Xy);
    assert_eq!(guess_format_from_extension("png"), XrdOutputFormat::Png);
    assert_eq!(guess_format_from_extension("weird"), XrdOutputFormat::Png);
}

#[test]
fn test_predefined_wavelengths() {
    assert_eq!(get_predefined_wavelength("cu-ka"), Some(1_541_800));
    assert_eq!(get_predefined_wavelength("Cu-Ka"), Some(1_541_800));
    assert_eq!(get_predefined_wavelength("MoKa"), Some(710_700));
    assert_eq!(get_predefined_wavelength("ag-ka"), Some(560_900));
    assert_eq!(get_predefined_wavelength("zz-ka"), None);
}

#[test]
fn test_u64_to_string() {
    assert_eq!(u64_to_string(0), "0");
    assert_eq!(u64_to_string(7), "7");
    assert_eq!(u64_to_string(32), "32");
    assert_eq!(u64_to_string(12065), "12065");
}

#[test]
fn test_generate_sbatch_script() {
    let mut config = SlurmConfig::default();
    config.modules = vec!["castep".to_string(), "mpi".to_string()];
    let script = generate_sbatch_script(&config, "/scratch/run1", "mpirun castep job");
    assert!(script.starts_with("#!/bin/bash\n"));
    assert!(script.contains("#SBATCH --partition arm\n"));
    assert!(script.contains("#SBATCH --nodes=1\n"));
    assert!(script.contains("#SBATCH -n 32\n"));
    assert!(script.contains("#SBATCH -J job\n"));
    assert!(script.contains("module load castep\nmodule load mpi\n"));
    assert!(script.contains("cd \"/scratch/run1\"\n"));
    assert!(script.contains("echo \"Running: mpirun castep job\"\nmpirun castep job\n"));
}

#[test]
fn test_dft_result_per_atom() {
    let mut r = DftResult::new("TiC-1", DftCodeType::Vasp);
    assert_eq!(r.structure_name, "TiC-1");
    assert!(r.enthalpy_per_atom().is_none());
    r.enthalpy_ev = Some(-40_000_000);
    r.energy_ev = Some(-42_000_000);
    r.num_atoms = Some(8);
    assert_eq!(r.enthalpy_per_atom(), Some(-5_000_000));
    assert_eq!(r.energy_per_atom(), Some(-5_250_000));
    r.num_atoms = Some(0);
    assert!(r.enthalpy_per_atom().is_none());
}

#[test]
fn test_upsert_pressure_appends_block() {
    let out = upsert_external_pressure_block(
        "%BLOCK LATTICE_CART\n1 0 0\n%ENDBLOCK LATTICE_CART\n",
        2_500_000,
    );
    assert_eq!(
        out,
        "%BLOCK LATTICE_CART\n1 0 0\n%ENDBLOCK LATTICE_CART\n\n%BLOCK EXTERNAL_PRESSURE\nGPa\n2.5 0 0\n2.5 0\n2.5\n%ENDBLOCK EXTERNAL_PRESSURE\n\n"
    );
}

#[test]
fn test_upsert_pressure_replaces_block() {
    let cell =
        "first\n%block external_pressure\nGPa\n1 0 0\n1 0\n1\n%endblock  EXTERNAL_PRESSURE\n\nlast\n";
    let out = upsert_external_pressure_block(cell, 10_000_000);
    assert_eq!(
        out,
        "first\nlast\n\n%BLOCK EXTERNAL_PRESSURE\nGPa\n10 0 0\n10 0\n10\n%ENDBLOCK EXTERNAL_PRESSURE\n\n"
    );
}

#[test]
fn test_upsert_pressure_removes_every_block() {
    let cell = "%BLOCK EXTERNAL_PRESSURE\nGPa\n1 0 0\n1 0\n1\n%ENDBLOCK EXTERNAL_PRESSURE\nmid\n%BLOCK EXTERNAL_PRESSURE\nGPa\n2 0 0\n2 0\n2\n%ENDBLOCK EXTERNAL_PRESSURE\n";
    let out = upsert_external_pressure_block(cell, -1_500_000);
    assert_eq!(
        out,
        "mid\n\n%BLOCK EXTERNAL_PRESSURE\nGPa\n-1.5 0 0\n-1.5 0\n-1.5\n%ENDBLOCK EXTERNAL_PRESSURE\n\n"
    );
}

#[test]
fn test_upsert_pressure_decimal_rendering() {
    let out = upsert_external_pressure_block("", 424_589);
    assert!(out.contains("\n0.424589 0 0\n"));
    let out2 = upsert_external_pressure_block("", 0);
    assert!(out2.contains("\n0 0 0\n"));
}
