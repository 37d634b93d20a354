use pm_translate::mappings::create_translation_mappings;
use pm_translate::translate::{
    check_and_translate_package_managers, check_and_translate_runners, get_runner_command,
    translate_command, translate_to_preferred_pm,
};

#[test]
fn test_pnpm_dlx_conversion() {
    assert_eq!(
        check_and_translate_runners("pnpm dlx create-next-app", "npm"),
        Some("npx create-next-app".to_string())
    );
    assert_eq!(
        check_and_translate_runners("pnpm dlx create-next-app", "yarn"),
        Some("yarn dlx create-next-app".to_string())
    );
    assert_eq!(
        check_and_translate_runners("pnpm dlx create-next-app", "bun"),
        Some("bunx create-next-app".to_string())
    );

    assert_eq!(
        check_and_translate_runners("pnpx create-next-app", "pnpm"),
        None
    );
}

#[test]
fn test_pnpx_conversion() {
    assert_eq!(
        check_and_translate_runners("pnpx create-next-app", "npm"),
        Some("npx create-next-app".to_string())
    );
    assert_eq!(
        check_and_translate_runners("pnpx create-next-app", "yarn"),
        Some("yarn dlx create-next-app".to_string())
    );
    assert_eq!(
        check_and_translate_runners("pnpx create-next-app", "bun"),
        Some("bunx create-next-app".to_string())
    );

    assert_eq!(
        check_and_translate_runners("pnpx create-next-app", "pnpm"),
        None
    );
}

#[test]
fn test_other_runners_to_pnpm() {
    assert_eq!(
        check_and_translate_runners("npx create-next-app", "pnpm"),
        Some("pnpx create-next-app".to_string())
    );
    assert_eq!(
        check_and_translate_runners("bunx create-next-app", "pnpm"),
        Some("pnpx create-next-app".to_string())
    );
    assert_eq!(
        check_and_translate_runners("yarn dlx create-next-app", "pnpm"),
        Some("pnpx create-next-app".to_string())
    );
}

#[test]
fn test_get_runner_command() {
    assert_eq!(
        get_runner_command("npm", "create-next-app"),
        "npx create-next-app"
    );
    assert_eq!(
        get_runner_command("pnpm", "create-next-app"),
        "pnpx create-next-app"
    );
    assert_eq!(
        get_runner_command("yarn", "create-next-app"),
        "yarn dlx create-next-app"
    );
    assert_eq!(
        get_runner_command("bun", "create-next-app"),
        "bunx create-next-app"
    );
}

#[test]
fn test_npm_install_translations() {
    let translations = create_translation_mappings();

    assert_eq!(
        translate_to_preferred_pm("npm install react", "npm", "pnpm", &translations),
        Some("pnpm add react".to_string())
    );
    assert_eq!(
        translate_to_preferred_pm("npm install react", "npm", "yarn", &translations),
        Some("yarn add react".to_string())
    );
    assert_eq!(
        translate_to_preferred_pm("npm install react", "npm", "bun", &translations),
        Some("bun add react".to_string())
    );

    assert_eq!(
        translate_to_preferred_pm("npm i react", "npm", "pnpm", &translations),
        Some("pnpm add react".to_string())
    );
}

#[test]
fn test_npm_uninstall_translations() {
    let translations = create_translation_mappings();

    assert_eq!(
        translate_to_preferred_pm("npm uninstall react", "npm", "pnpm", &translations),
        Some("pnpm remove react".to_string())
    );
    assert_eq!(
        translate_to_preferred_pm("npm uninstall react", "npm", "yarn", &translations),
        Some("yarn remove react".to_string())
    );
    assert_eq!(
        translate_to_preferred_pm("npm uninstall react", "npm", "bun", &translations),
        Some("bun remove react".to_string())
    );
}

#[test]
fn test_pnpm_add_translations() {
    let translations = create_translation_mappings();

    assert_eq!(
        translate_to_preferred_pm("pnpm add react", "pnpm", "npm", &translations),
        Some("npm install react".to_string())
    );

    assert_eq!(
        translate_to_preferred_pm("pnpm add react", "pnpm", "yarn", &translations),
        Some("yarn add react".to_string())
    );
    assert_eq!(
        translate_to_preferred_pm("pnpm add react", "pnpm", "bun", &translations),
        Some("bun add react".to_string())
    );
}

#[test]
fn test_yarn_add_translations() {
    let translations = create_translation_mappings();

    assert_eq!(
        translate_to_preferred_pm("yarn add react", "yarn", "npm", &translations),
        Some("npm install react".to_string())
    );

    assert_eq!(
        translate_to_preferred_pm("yarn add react", "yarn", "pnpm", &translations),
        Some("pnpm add react".to_string())
    );
    assert_eq!(
        translate_to_preferred_pm("yarn add react", "yarn", "bun", &translations),
        Some("bun add react".to_string())
    );
}

#[test]
fn test_bun_add_translations() {
    let translations = create_translation_mappings();

    assert_eq!(
        translate_to_preferred_pm("bun add react", "bun", "npm", &translations),
        Some("npm install react".to_string())
    );

    assert_eq!(
        translate_to_preferred_pm("bun add react", "bun", "pnpm", &translations),
        Some("pnpm add react".to_string())
    );
    assert_eq!(
        translate_to_preferred_pm("bun add react", "bun", "yarn", &translations),
        Some("yarn add react".to_string())
    );
}

#[test]
fn test_global_install_translations() {
    let translations = create_translation_mappings();

    assert_eq!(
        translate_to_preferred_pm("npm install -g typescript", "npm", "pnpm", &translations),
        Some("pnpm add -g typescript".to_string())
    );
    assert_eq!(
        translate_to_preferred_pm("npm install -g typescript", "npm", "yarn", &translations),
        Some("yarn global add typescript".to_string())
    );
    assert_eq!(
        translate_to_preferred_pm("npm install -g typescript", "npm", "bun", &translations),
        Some("bun add -g typescript".to_string())
    );

    assert_eq!(
        translate_to_preferred_pm(
            "npm install --global typescript",
            "npm",
            "pnpm",
            &translations
        ),
        Some("pnpm add -g typescript".to_string())
    );

    assert_eq!(
        translate_to_preferred_pm("npm install -g", "npm", "pnpm", &translations),
        Some("pnpm add -g".to_string())
    );
}

#[test]
fn test_script_running_translations() {
    let translations = create_translation_mappings();

    assert_eq!(
        translate_to_preferred_pm("yarn build", "yarn", "npm", &translations),
        Some("npm run build".to_string())
    );
    assert_eq!(
        translate_to_preferred_pm("yarn test", "yarn", "pnpm", &translations),
        Some("pnpm run test".to_string())
    );
    assert_eq!(
        translate_to_preferred_pm("yarn dev", "yarn", "bun", &translations),
        Some("bun run dev".to_string())
    );

    assert_eq!(
        translate_to_preferred_pm("yarn build", "yarn", "yarn", &translations),
        Some("yarn build".to_string())
    );
}

#[test]
fn test_script_commands_with_run() {
    let translations = create_translation_mappings();

    assert_eq!(
        translate_to_preferred_pm("npm run build", "npm", "pnpm", &translations),
        Some("pnpm run build".to_string())
    );
    assert_eq!(
        translate_to_preferred_pm("pnpm run test", "pnpm", "yarn", &translations),
        Some("yarn run test".to_string())
    );
}

#[test]
fn test_check_and_translate_package_managers() {
    assert_eq!(
        check_and_translate_package_managers("npm install react", "pnpm"),
        Some("pnpm add react".to_string())
    );
    assert_eq!(
        check_and_translate_package_managers("yarn add typescript", "npm"),
        Some("npm install typescript".to_string())
    );

    assert_eq!(
        check_and_translate_package_managers("npm install react", "npm"),
        None
    );
}

#[test]
fn test_edge_cases() {
    let translations = create_translation_mappings();

    assert_eq!(
        translate_to_preferred_pm("npm install", "npm", "pnpm", &translations),
        Some("pnpm add".to_string())
    );

    assert_eq!(
        translate_to_preferred_pm("npm", "npm", "pnpm", &translations),
        None
    );

    assert_eq!(
        translate_to_preferred_pm("npm install react react-dom", "npm", "pnpm", &translations),
        Some("pnpm add react react-dom".to_string())
    );
}

#[test]
fn test_translate_command_integration() {
    let mut state = pm_translate::state::AppState::<u32>::new();
    pm_translate::state::set_preferred_package_manager(&mut state, "pnpm".to_string()).unwrap();
    let preferred_pm = pm_translate::state::get_preferred_package_manager(&state);

    assert_eq!(
        translate_command("npx create-react-app my-app", &preferred_pm),
        Some("pnpx create-react-app my-app".to_string())
    );

    assert_eq!(
        translate_command("npm install lodash", &preferred_pm),
        Some("pnpm add lodash".to_string())
    );

    assert_eq!(
        translate_command("yarn build", &preferred_pm),
        Some("pnpm run build".to_string())
    );
}
