//! The text of the files that one-time setup installs.
use vstd::prelude::*;

verus! {

/// The udev rule, for the program installed at `exe`: Keychron hidraw nodes
/// (vendor `3434`) get group `keylauncher`, and on every plug-in the program
/// re-applies the saved state to the new node.
pub open spec fn spec_udev_rule(exe: Seq<char>) -> Seq<char> {
    "ACTION==\"add\", SUBSYSTEM==\"hidraw\", ATTRS{idVendor}==\"3434\", GROUP=\"keylauncher\", RUN+=\""@
        + exe + " __udev-apply $env{DEVNAME}\"\n"@
}

/// The udev rule text for the program installed at `exe`.
pub fn udev_rule(exe: &str) -> (rule: String)
    ensures
        rule@ == spec_udev_rule(exe@),
{
    let mut rule = String::from_str(
        "ACTION==\"add\", SUBSYSTEM==\"hidraw\", ATTRS{idVendor}==\"3434\", GROUP=\"keylauncher\", RUN+=\"",
    );
    rule.append(exe);
    rule.append(" __udev-apply $env{DEVNAME}\"\n");
    rule
}

/// The polkit policy for the program installed at `exe`: running it through
/// pkexec needs an administrator, kept for the session when active.
pub open spec fn spec_polkit_policy(exe: Seq<char>) -> Seq<char> {
    "<?xml version=\"1.0\" encoding=\"UTF-8\"?>\n<!DOCTYPE policyconfig PUBLIC \"-//freedesktop//DTD PolicyKit Policy Configuration 1.0//EN\"\n \"http://www.freedesktop.org/standards/PolicyKit/1/policyconfig.dtd\">\n<policyconfig>\n  <action id=\"io.github.santoja.keylauncher.manage\">\n    <description>Manage Keychron browser access</description>\n    <message>Authentication is required to change Keychron device access</message>\n    <defaults>\n      <allow_any>auth_admin</allow_any>\n      <allow_inactive>auth_admin</allow_inactive>\n      <allow_active>auth_admin_keep</allow_active>\n    </defaults>\n    <annotate key=\"org.freedesktop.policykit.exec.path\">"@
        + exe + "</annotate>\n  </action>\n</policyconfig>\n"@
}

/// The polkit policy text for the program installed at `exe`.
pub fn polkit_policy(exe: &str) -> (policy: String)
    ensures
        policy@ == spec_polkit_policy(exe@),
{
    let mut policy = String::from_str(
        "<?xml version=\"1.0\" encoding=\"UTF-8\"?>\n<!DOCTYPE policyconfig PUBLIC \"-//freedesktop//DTD PolicyKit Policy Configuration 1.0//EN\"\n \"http://www.freedesktop.org/standards/PolicyKit/1/policyconfig.dtd\">\n<policyconfig>\n  <action id=\"io.github.santoja.keylauncher.manage\">\n    <description>Manage Keychron browser access</description>\n    <message>Authentication is required to change Keychron device access</message>\n    <defaults>\n      <allow_any>auth_admin</allow_any>\n      <allow_inactive>auth_admin</allow_inactive>\n      <allow_active>auth_admin_keep</allow_active>\n    </defaults>\n    <annotate key=\"org.freedesktop.policykit.exec.path\">",
    );
    policy.append(exe);
    policy.append("</annotate>\n  </action>\n</policyconfig>\n");
    policy
}

/// An XML element: an opening tag with the given attributes, the content,
/// and the matching closing tag.
pub open spec fn xml_element(tag: Seq<char>, attrs: Seq<char>, content: Seq<char>) -> Seq<char> {
    "<"@ + tag + attrs + ">"@ + content + "</"@ + tag + ">"@
}

/// The XML declaration and the policyconfig document type.
pub open spec fn polkit_prolog() -> Seq<char> {
    "<?xml version=\"1.0\" encoding=\"UTF-8\"?>\n"@
        + "<!DOCTYPE policyconfig PUBLIC \"-//freedesktop//DTD PolicyKit Policy Configuration 1.0//EN\"\n \"http://www.freedesktop.org/standards/PolicyKit/1/policyconfig.dtd\">\n"@
}

/// The policy text is one well-formed `policyconfig` document: after the
/// prolog comes a single `<policyconfig>` root holding the one action
/// `io.github.santoja.keylauncher.manage`, whose description, message,
/// defaults (administrator authentication, kept for the active session) and
/// exec-path annotation naming `exe` each sit in a matching pair of tags.
pub proof fn lemma_polkit_policy_is_policyconfig_document(exe: Seq<char>)
    ensures
        spec_polkit_policy(exe) == polkit_prolog() + xml_element(
            "policyconfig"@,
            ""@,
            "\n  "@ + xml_element(
                "action"@,
                " id=\"io.github.santoja.keylauncher.manage\""@,
                "\n    "@ + xml_element("description"@, ""@, "Manage Keychron browser access"@)
                    + "\n    "@ + xml_element(
                    "message"@,
                    ""@,
                    "Authentication is required to change Keychron device access"@,
                ) + "\n    "@ + xml_element(
                    "defaults"@,
                    ""@,
                    "\n      "@ + xml_element("allow_any"@, ""@, "auth_admin"@) + "\n      "@
                        + xml_element("allow_inactive"@, ""@, "auth_admin"@) + "\n      "@
                        + xml_element("allow_active"@, ""@, "auth_admin_keep"@) + "\n    "@,
                ) + "\n    "@ + xml_element(
                    "annotate"@,
                    " key=\"org.freedesktop.policykit.exec.path\""@,
                    exe,
                ) + "\n  "@,
            ) + "\n"@,
        ) + "\n"@,
{
    reveal_strlit("<?xml version=\"1.0\" encoding=\"UTF-8\"?>\n<!DOCTYPE policyconfig PUBLIC \"-//freedesktop//DTD PolicyKit Policy Configuration 1.0//EN\"\n \"http://www.freedesktop.org/standards/PolicyKit/1/policyconfig.dtd\">\n<policyconfig>\n  <action id=\"io.github.santoja.keylauncher.manage\">\n    <description>Manage Keychron browser access</description>\n    <message>Authentication is required to change Keychron device access</message>\n    <defaults>\n      <allow_any>auth_admin</allow_any>\n      <allow_inactive>auth_admin</allow_inactive>\n      <allow_active>auth_admin_keep</allow_active>\n    </defaults>\n    <annotate key=\"org.freedesktop.policykit.exec.path\">");
    reveal_strlit("</annotate>\n  </action>\n</policyconfig>\n");
    reveal_strlit("<?xml version=\"1.0\" encoding=\"UTF-8\"?>\n");
    reveal_strlit("<!DOCTYPE policyconfig PUBLIC \"-//freedesktop//DTD PolicyKit Policy Configuration 1.0//EN\"\n \"http://www.freedesktop.org/standards/PolicyKit/1/policyconfig.dtd\">\n");
    reveal_strlit("<");
    reveal_strlit(">");
    reveal_strlit("</");
    reveal_strlit("");
    reveal_strlit("\n");
    reveal_strlit("\n  ");
    reveal_strlit("\n    ");
    reveal_strlit("\n      ");
    reveal_strlit("policyconfig");
    reveal_strlit("action");
    reveal_strlit(" id=\"io.github.santoja.keylauncher.manage\"");
    reveal_strlit("description");
    reveal_strlit("Manage Keychron browser access");
    reveal_strlit("message");
    reveal_strlit("Authentication is required to change Keychron device access");
    reveal_strlit("defaults");
    reveal_strlit("allow_any");
    reveal_strlit("auth_admin");
    reveal_strlit("allow_inactive");
    reveal_strlit("allow_active");
    reveal_strlit("auth_admin_keep");
    reveal_strlit("annotate");
    reveal_strlit(" key=\"org.freedesktop.policykit.exec.path\"");
    assert(spec_polkit_policy(exe) =~= polkit_prolog() + xml_element(
        "policyconfig"@,
        ""@,
        "\n  "@ + xml_element(
            "action"@,
            " id=\"io.github.santoja.keylauncher.manage\""@,
            "\n    "@ + xml_element("description"@, ""@, "Manage Keychron browser access"@)
                + "\n    "@ + xml_element(
                "message"@,
                ""@,
                "Authentication is required to change Keychron device access"@,
            ) + "\n    "@ + xml_element(
                "defaults"@,
                ""@,
                "\n      "@ + xml_element("allow_any"@, ""@, "auth_admin"@) + "\n      "@
                    + xml_element("allow_inactive"@, ""@, "auth_admin"@) + "\n      "@
                    + xml_element("allow_active"@, ""@, "auth_admin_keep"@) + "\n    "@,
            ) + "\n    "@ + xml_element(
                "annotate"@,
                " key=\"org.freedesktop.policykit.exec.path\""@,
                exe,
            ) + "\n  "@,
        ) + "\n"@,
    ) + "\n"@);
}

} // verus!
