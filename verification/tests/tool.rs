use whitebox_or::tool::Or;

#[test]
fn name_description_and_parameters() {
    let tool = Or::new("/home/user", "/home/user/whitebox_tools", '/');
    assert_eq!(tool.get_tool_name(), "Or");
    assert_eq!(
        tool.get_tool_description(),
        "Performs a logical OR operator on two Boolean raster images."
    );
    assert_eq!(
        tool.get_tool_parameters(),
        "--input1       Input raster file.--input2       Input raster file.\n-o, --output   Output raster file.\n"
    );
}

#[test]
fn example_usage_on_a_slash_platform() {
    let tool = Or::new("/home/user", "/home/user/whitebox_tools", '/');
    assert_eq!(
        tool.get_example_usage(),
        ">>./whitebox_tools -r=Or --wd=\"/path/to/data/\" --input1='in1.dep' --input2='in2.dep' -o=output.dep"
    );
}

#[test]
fn example_usage_on_a_backslash_platform() {
    let tool = Or::new("C:\\work", "C:\\work\\whitebox_tools.exe", '\\');
    assert_eq!(
        tool.get_example_usage(),
        ">>.\\whitebox_tools.exe -r=Or --wd=\"\\path\\to\\data\\\" --input1='in1.dep' --input2='in2.dep' -o=output.dep"
    );
}

#[test]
fn executable_outside_the_working_directory() {
    let tool = Or::new("/data", "/opt/wbt-1.0/bin/wbt", '/');
    assert_eq!(
        tool.get_example_usage(),
        ">>./optwbt-10binwbt -r=Or --wd=\"/path/to/data/\" --input1='in1.dep' --input2='in2.dep' -o=output.dep"
    );
}

#[test]
fn example_usage_agrees_with_the_standard_library() {
    let cases = [
        ("/home/user", "/home/user/target/debug/tool", '/'),
        ("", "/bin/tool", '/'),
        ("/a", "/a/b.exe/c.exe", '/'),
        ("C:\\x", "D:\\y\\t*l.EXE", '\\'),
        ("/x", "", '/'),
        ("exe", ".exe", '/'),
    ];
    for (p, e, separator) in cases {
        let sep = separator.to_string();
        let mut short_exe = e.replace(p, "").replace(".exe", "").replace(".", "").replace(&sep, "");
        if e.contains(".exe") {
            short_exe += ".exe";
        }
        let usage = format!(
            ">>.*{0} -r={1} --wd=\"*path*to*data*\" --input1='in1.dep' --input2='in2.dep' -o=output.dep",
            short_exe, "Or"
        )
        .replace("*", &sep);
        assert_eq!(Or::new(p, e, separator).get_example_usage(), usage, "{p:?} {e:?}");
    }
}
